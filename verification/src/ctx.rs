//! The per-request context: who asks, for which api path, with which data.
use vstd::prelude::*;
use vstd::utf8::*;

use crate::text::{replace_first, spec_replace_first};

verus! {

/// The user behind a request, taken from its token.
pub struct UserInfoCtx {
    pub id: String,
    pub token_id: String,
    pub name: String,
}

/// What a request asks for.
pub struct ReqCtx {
    /// The request uri as received, with its query string.
    pub ori_uri: String,
    /// The api path, without the api prefix.
    pub path: String,
    /// The query string.
    pub path_params: String,
    /// The HTTP method.
    pub method: String,
    /// The user behind the request.
    pub user: UserInfoCtx,
    /// The request body as text.
    pub data: String,
}

/// What the api table records of an api path.
pub struct ApiInfo {
    /// The api's display name.
    pub name: String,
    /// How responses are cached: "0" not at all, "1" per token, otherwise
    /// shared by all users.
    pub data_cache_method: String,
    /// How the api is logged.
    pub log_method: String,
    /// Api paths whose cached responses a change through this api makes
    /// stale.
    pub related_api: Option<Vec<String>>,
    /// Whether operations on this api are logged.
    pub is_log: bool,
}

impl UserInfoCtx {
    /// The user behind the claims of a token.
    pub fn from_claims(claims: &crate::jwt::Claims) -> (u: UserInfoCtx)
        ensures
            u.id@ == claims.id@,
            u.token_id@ == claims.token_id@,
            u.name@ == claims.name@,
    {
        UserInfoCtx { id: claims.id.clone(), token_id: claims.token_id.clone(), name: claims.name.clone() }
    }
}

/// The api path of a request path: the path with its first occurrence of
/// the api prefix followed by `/` removed.
pub open spec fn spec_api_path(ori_uri_path: Seq<char>, api_prefix: Seq<char>) -> Seq<char> {
    spec_replace_first(ori_uri_path, api_prefix + "/"@, Seq::empty())
}

/// The uri a request was received with: its path, followed by `?` and the
/// query string when there is one.
pub open spec fn spec_ori_uri(ori_uri_path: Seq<char>, params: Seq<char>) -> Seq<char> {
    if params.len() == 0 {
        ori_uri_path
    } else {
        ori_uri_path + "?"@ + params
    }
}

/// Builds the context of a request from its path, the configured api
/// prefix, its method, its query string (if any), its body text and its
/// user.
pub fn build_req_ctx(
    ori_uri_path: String,
    api_prefix: &str,
    method: String,
    query: Option<String>,
    data: String,
    user: UserInfoCtx,
) -> (ctx: ReqCtx)
    ensures
        ctx.path@ == spec_api_path(ori_uri_path@, api_prefix@),
        ctx.path_params@ == (match query {
            Some(q) => q@,
            None => Seq::<char>::empty(),
        }),
        ctx.ori_uri@ == spec_ori_uri(ori_uri_path@, ctx.path_params@),
        ctx.method@ == method@,
        ctx.data@ == data@,
        ctx.user == user,
{
    let mut prefix = api_prefix.to_owned();
    prefix.append("/");
    proof {
        reveal_strlit("/");
    }
    let path = replace_first(ori_uri_path.as_str(), prefix.as_str(), "");
    proof {
        reveal_strlit("");
        assert(""@ =~= Seq::<char>::empty());
    }
    let path_params = match query {
        Some(q) => q,
        None => String::new(),
    };
    let ori_uri = if path_params.as_str().is_empty() {
        ori_uri_path
    } else {
        let mut u = ori_uri_path;
        u.append("?");
        u.append(path_params.as_str());
        u
    };
    ReqCtx { ori_uri, path, path_params, method, user, data }
}

/// A request path made of the api prefix, `/` and a rest has that rest as
/// its api path.
pub proof fn lemma_api_path_strips_prefix(api_prefix: Seq<char>, rest: Seq<char>)
    ensures
        spec_api_path(api_prefix + "/"@ + rest, api_prefix) == rest,
{
    reveal_strlit("/");
    let pat = api_prefix + "/"@;
    let s = pat + rest;
    assert(api_prefix + "/"@ + rest == s);
    assert(s.subrange(0, pat.len() as int) =~= pat);
    assert(s.subrange(pat.len() as int, s.len() as int) =~= rest);
    assert(Seq::<char>::empty() + rest =~= rest);
}

/// Calls `std::str::from_utf8` and copies the text out. The standard
/// library documents that it succeeds exactly on valid UTF-8, and then the
/// text is the decoded bytes.
#[verifier::external_body]
fn utf8_text(bytes: &[u8]) -> (r: Option<String>)
    ensures
        r is Some <==> valid_utf8(bytes@),
        r matches Some(s) ==> s@ == decode_utf8(bytes@),
{
    match std::str::from_utf8(bytes) {
        Ok(s) => Some(s.to_owned()),
        Err(_) => None,
    }
}

/// What a body that is not text is logged as.
pub open spec fn binary_body_note() -> Seq<char> {
    "该数据无法转输出，可能为blob，binary"@
}

/// The text of a request body: the body itself when it is valid UTF-8,
/// otherwise a note that it is binary.
pub fn body_text(bytes: &[u8]) -> (text: String)
    ensures
        valid_utf8(bytes@) ==> text@ == decode_utf8(bytes@),
        !valid_utf8(bytes@) ==> text@ == binary_body_note(),
{
    match utf8_text(bytes) {
        Some(s) => s,
        None => "该数据无法转输出，可能为blob，binary".to_owned(),
    }
}

} // verus!
