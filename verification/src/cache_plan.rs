//! What the response cache does with a request.
use vstd::prelude::*;

use crate::ctx::{ApiInfo, ReqCtx};
use crate::text::{clone_texts, str_eq};

verus! {

/// What to do with a request.
pub enum CachePlan {
    /// A request that is not a GET: pass it on, and once it succeeded drop
    /// the cached responses of these apis.
    Forward { related_api: Option<Vec<String>> },
    /// A GET on an api whose responses are not cached: pass it on.
    Bypass,
    /// A GET on a cached api: answer from the cache under
    /// `(api_key, data_key)`; on a miss pass it on and cache the response.
    Cached { api_key: String, data_key: String },
}

/// The data key of a GET request: its uri and method, and with the
/// per-token cache method ("1") also the token id, joined by `_`.
pub open spec fn spec_data_key(ori_uri: Seq<char>, method: Seq<char>, token_id: Seq<char>, cache_method: Seq<char>) -> Seq<char> {
    if cache_method == "1"@ {
        ori_uri + "_"@ + method + "_"@ + token_id
    } else {
        ori_uri + "_"@ + method
    }
}

/// The data key of a GET request (see `spec_data_key`).
pub fn data_key(ori_uri: &str, method: &str, token_id: &str, cache_method: &str) -> (k: String)
    ensures
        k@ == spec_data_key(ori_uri@, method@, token_id@, cache_method@),
{
    let mut k = ori_uri.to_owned();
    k.append("_");
    k.append(method);
    if str_eq(cache_method, "1") {
        k.append("_");
        k.append(token_id);
    }
    k
}

/// The cache method of an api: as recorded, or "0" (no caching) for an api
/// the table does not know.
pub open spec fn cache_method_of(api: Option<ApiInfo>) -> Seq<char> {
    match api {
        Some(a) => a.data_cache_method@,
        None => "0"@,
    }
}

/// What a request's plan is (see `CachePlan`), given its context, what the
/// api table records of its path, and the token id of its bearer token.
pub open spec fn plan_matches(p: CachePlan, ctx: ReqCtx, api: Option<ApiInfo>, token_id: Seq<char>) -> bool {
    if ctx.method@ != "GET"@ {
        p matches CachePlan::Forward { related_api } && match api {
            Some(a) => match (related_api, a.related_api) {
                (Some(r), Some(q)) => r@ == q@,
                (None, None) => true,
                _ => false,
            },
            None => related_api is None,
        }
    } else if cache_method_of(api) == "0"@ {
        p is Bypass
    } else {
        p matches CachePlan::Cached { api_key, data_key } && api_key@ == ctx.path@
            && data_key@ == spec_data_key(ctx.ori_uri@, ctx.method@, token_id, cache_method_of(api))
    }
}

/// A request that is not a GET is passed on, and after it the cached
/// responses of exactly the related apis that the api table records for its
/// api are dropped, however that api's own responses are cached; for an
/// api the table does not know, none are.
pub proof fn law_change_drops_related(p: CachePlan, ctx: ReqCtx, api: Option<ApiInfo>, token_id: Seq<char>)
    requires
        plan_matches(p, ctx, api, token_id),
        ctx.method@ != "GET"@,
    ensures
        p matches CachePlan::Forward { related_api } && match api {
            Some(a) => match (related_api, a.related_api) {
                (Some(r), Some(q)) => r@ == q@,
                (None, None) => true,
                _ => false,
            },
            None => related_api is None,
        },
{
}

/// A GET on an api whose responses are not cached, or that the table does
/// not know, is passed on untouched; a GET on a cached api is answered from
/// the cache under its own api path and a data key made of its uri and
/// method.
pub proof fn law_get_plans(p: CachePlan, ctx: ReqCtx, api: Option<ApiInfo>, token_id: Seq<char>)
    requires
        plan_matches(p, ctx, api, token_id),
        ctx.method@ == "GET"@,
    ensures
        api is None ==> p is Bypass,
        api matches Some(a) && a.data_cache_method@ == "0"@ ==> p is Bypass,
        api matches Some(a) && a.data_cache_method@ != "0"@ ==> (p matches CachePlan::Cached { api_key, data_key }
            && api_key@ == ctx.path@ && data_key@.subrange(0, ctx.ori_uri@.len() as int) == ctx.ori_uri@),
{
    if let Some(a) = api {
        if a.data_cache_method@ != "0"@ {
            if let CachePlan::Cached { api_key, data_key } = p {
                let u = ctx.ori_uri@;
                let m = ctx.method@;
                if a.data_cache_method@ == "1"@ {
                    assert((u + "_"@ + m + "_"@ + token_id).subrange(0, u.len() as int) =~= u);
                } else {
                    assert((u + "_"@ + m).subrange(0, u.len() as int) =~= u);
                }
            }
        }
    }
}

/// Plans how the cache handles a request.
pub fn cache_plan(ctx: &ReqCtx, api: Option<ApiInfo>, token_id: &str) -> (p: CachePlan)
    ensures
        plan_matches(p, *ctx, api, token_id@),
{
    if !str_eq(ctx.method.as_str(), "GET") {
        let related_api = match &api {
            Some(a) => match &a.related_api {
                Some(r) => Some(clone_texts(r)),
                None => None,
            },
            None => None,
        };
        return CachePlan::Forward { related_api };
    }
    let cache_method = match &api {
        Some(a) => a.data_cache_method.clone(),
        None => "0".to_owned(),
    };
    if str_eq(cache_method.as_str(), "0") {
        CachePlan::Bypass
    } else {
        let k = data_key(ctx.ori_uri.as_str(), ctx.method.as_str(), token_id, cache_method.as_str());
        CachePlan::Cached { api_key: ctx.path.clone(), data_key: k }
    }
}

/// What the cache does once the handler has answered a request that was
/// passed on.
pub enum CacheFollowUp {
    /// Drop the cached responses of these apis.
    DropApis(Option<Vec<String>>),
    /// Store the response under these keys.
    Store { api_key: String, data_key: String },
    /// Nothing.
    Nothing,
}

/// What the cache does after the handler answered under `plan` (for a
/// cached plan, after a miss): only an answer that succeeded drops the
/// cached responses of related apis or is stored; a failed one changes
/// nothing.
pub fn follow_up(plan: CachePlan, succeeded: bool) -> (f: CacheFollowUp)
    ensures
        !succeeded ==> f is Nothing,
        succeeded ==> match plan {
            CachePlan::Forward { related_api } => f == CacheFollowUp::DropApis(related_api),
            CachePlan::Bypass => f is Nothing,
            CachePlan::Cached { api_key, data_key } => f == (CacheFollowUp::Store { api_key, data_key }),
        },
{
    if !succeeded {
        return CacheFollowUp::Nothing;
    }
    match plan {
        CachePlan::Forward { related_api } => CacheFollowUp::DropApis(related_api),
        CachePlan::Bypass => CacheFollowUp::Nothing,
        CachePlan::Cached { api_key, data_key } => CacheFollowUp::Store { api_key, data_key },
    }
}

} // verus!
