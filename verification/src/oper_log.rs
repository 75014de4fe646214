//! Operation-log records: what is written to the log for a request.
use vstd::prelude::*;
use vstd::utf8::*;

use crate::ctx::{ApiInfo, ReqCtx};
use crate::ids::{is_scru128_text, new_id};
use crate::text::str_eq;

verus! {

broadcast use group_utf8_lib;

/// The operator type logged for an HTTP method: "1" query, "2" create, "3"
/// update, "4" delete, "0" anything else.
pub open spec fn spec_operator_type(method: Seq<char>) -> Seq<char> {
    if method == "GET"@ {
        "1"@
    } else if method == "POST"@ {
        "2"@
    } else if method == "PUT"@ {
        "3"@
    } else if method == "DELETE"@ {
        "4"@
    } else {
        "0"@
    }
}

/// The operator type of an HTTP method (see `spec_operator_type`).
pub fn operator_type(method: &str) -> (t: String)
    ensures
        t@ == spec_operator_type(method@),
{
    if str_eq(method, "GET") {
        "1".to_owned()
    } else if str_eq(method, "POST") {
        "2".to_owned()
    } else if str_eq(method, "PUT") {
        "3".to_owned()
    } else if str_eq(method, "DELETE") {
        "4".to_owned()
    } else {
        "0".to_owned()
    }
}

/// Whether `s` can be cut after `max` bytes: it is no longer, or the cut
/// falls on a character boundary.
pub open spec fn cuttable(s: Seq<char>, max: int) -> bool {
    encode_utf8(s).len() <= max || is_char_boundary(encode_utf8(s), max)
}

/// `s` cut to its first `max` bytes.
pub open spec fn spec_cut(s: Seq<char>, max: int) -> Seq<char> {
    if encode_utf8(s).len() <= max {
        s
    } else {
        decode_utf8(encode_utf8(s).subrange(0, max))
    }
}

/// Cuts `s` to its first `max` bytes.
pub fn cut_text(s: String, max: usize) -> (r: String)
    requires
        cuttable(s@, max as int),
        encode_utf8(s@).len() <= usize::MAX,
    ensures
        r@ == spec_cut(s@, max as int),
        encode_utf8(r@).len() <= max,
        encode_utf8(r@) == encode_utf8(s@).subrange(0, encode_utf8(r@).len() as int),
{
    if s.as_str().len() > max {
        let (head, _) = s.as_str().split_at(max);
        proof {
            assert(head@ == decode_utf8(encode_utf8(head@)));
        }
        head.to_owned()
    } else {
        assert(encode_utf8(s@).subrange(0, encode_utf8(s@).len() as int) =~= encode_utf8(s@));
        s
    }
}

/// The most bytes of request data an entry keeps.
pub open spec fn max_param_bytes() -> int {
    1000
}

/// The most bytes of response data an entry keeps.
pub open spec fn max_result_bytes() -> int {
    10000
}

/// What the online-session table records of the user behind a request.
pub struct OnlineUser {
    pub dept_name: String,
    pub ipaddr: String,
    pub login_location: String,
}

/// One entry of the operation log.
pub struct OperLogRecord {
    pub oper_id: String,
    pub time_id: i64,
    pub title: String,
    pub business_type: String,
    pub method: String,
    pub request_method: String,
    pub operator_type: String,
    pub oper_name: String,
    pub dept_name: String,
    pub oper_url: String,
    pub oper_ip: String,
    pub oper_location: String,
    pub oper_param: String,
    pub json_result: String,
    pub path_param: String,
    pub status: String,
    pub error_msg: String,
    pub duration: i64,
    /// When the request finished: local wall-clock time in seconds.
    pub oper_time: i64,
}

/// The name an api is logged under and whether it is logged: as the api
/// table records, or an unnamed, logged api when the table does not know
/// it.
pub open spec fn spec_log_target(api: Option<ApiInfo>) -> (Seq<char>, bool) {
    match api {
        Some(a) => (a.name@, a.is_log),
        None => (Seq::empty(), true),
    }
}

/// The name an api is logged under and whether it is logged.
pub fn log_target(api: &Option<ApiInfo>) -> (r: (String, bool))
    ensures
        (r.0@, r.1) == spec_log_target(*api),
{
    match api {
        Some(a) => (a.name.clone(), a.is_log),
        None => {
            let r = (String::new(), true);
            proof {
                assert(r.0@ =~= Seq::<char>::empty());
            }
            r
        },
    }
}

/// What a finished request is logged with: its response and status "1"
/// when it succeeded; no response, status "0" and the error text when it
/// failed.
pub fn call_outcome(result: Result<String, String>) -> (r: (String, String, String))
    ensures
        match result {
            Ok(res) => r.0@ == res@ && r.1@ == "1"@ && r.2@ == Seq::<char>::empty(),
            Err(e) => r.0@ == Seq::<char>::empty() && r.1@ == "0"@ && r.2@ == e@,
        },
{
    match result {
        Ok(res) => {
            let r = (res, "1".to_owned(), String::new());
            proof {
                assert(r.2@ =~= Seq::<char>::empty());
            }
            r
        },
        Err(e) => {
            let r = (String::new(), "0".to_owned(), e);
            proof {
                assert(r.0@ =~= Seq::<char>::empty());
            }
            r
        },
    }
}

/// Whether `rec` is the log entry of request `req` with response `res`,
/// status `status` and error text `err_msg`, that took `duration_micros`
/// microseconds, of the api named `api_name`, in session `user`, finished
/// at `now`: a fresh id, the time (as `time_id` and `oper_time`), the api's
/// name, the request's path, method, uri and query, the operator type of
/// its method, the user and the session's department, address and location,
/// the request data cut to 1000 bytes and the response cut to 10000 bytes,
/// the status, the error text, and the duration in microseconds (as an
/// `i64`, wrapping as an `as` conversion does).
pub open spec fn is_entry_of(
    rec: OperLogRecord,
    req: ReqCtx,
    res: Seq<char>,
    status: Seq<char>,
    err_msg: Seq<char>,
    duration_micros: u128,
    api_name: Seq<char>,
    user: OnlineUser,
    now: i64,
) -> bool {
    &&& is_scru128_text(rec.oper_id@)
    &&& rec.time_id == now
    &&& rec.oper_time == now
    &&& rec.title@ == api_name
    &&& rec.business_type@ == Seq::<char>::empty()
    &&& rec.method@ == req.path@
    &&& rec.request_method@ == req.method@
    &&& rec.operator_type@ == spec_operator_type(req.method@)
    &&& rec.oper_name@ == req.user.name@
    &&& rec.dept_name@ == user.dept_name@
    &&& rec.oper_url@ == req.ori_uri@
    &&& rec.oper_ip@ == user.ipaddr@
    &&& rec.oper_location@ == user.login_location@
    &&& rec.oper_param@ == spec_cut(req.data@, max_param_bytes())
    &&& rec.json_result@ == spec_cut(res, max_result_bytes())
    &&& rec.path_param@ == req.path_params@
    &&& rec.status@ == status
    &&& rec.error_msg@ == err_msg
    &&& rec.duration == duration_micros as i64
}

/// Builds the log entry of a request (see `is_entry_of`).
pub fn new_oper_log(
    req: ReqCtx,
    res: String,
    status: String,
    err_msg: String,
    duration_micros: u128,
    api_name: String,
    user: OnlineUser,
    now: i64,
) -> (rec: OperLogRecord)
    requires
        cuttable(req.data@, max_param_bytes()),
        cuttable(res@, max_result_bytes()),
        encode_utf8(req.data@).len() <= usize::MAX,
        encode_utf8(res@).len() <= usize::MAX,
    ensures
        is_entry_of(rec, req, res@, status@, err_msg@, duration_micros, api_name@, user, now),
{
    let operator = operator_type(req.method.as_str());
    let business_type = String::new();
    proof {
        assert(business_type@ =~= Seq::<char>::empty());
    }
    OperLogRecord {
        oper_id: new_id(),
        time_id: now,
        title: api_name,
        business_type,
        method: req.path,
        request_method: req.method,
        operator_type: operator,
        oper_name: req.user.name,
        dept_name: user.dept_name,
        oper_url: req.ori_uri,
        oper_ip: user.ipaddr,
        oper_location: user.login_location,
        oper_param: cut_text(req.data, 1000),
        json_result: cut_text(res, 10000),
        path_param: req.path_params,
        status,
        error_msg: err_msg,
        duration: duration_micros as i64,
        oper_time: now,
    }
}

/// Whether a finished request is logged: operation logging is on, its api
/// is logged, and its session is online.
pub open spec fn logs(enabled: bool, api: Option<ApiInfo>, user: Option<OnlineUser>) -> bool {
    enabled && spec_log_target(api).1 && user is Some
}

/// What the response of a request whose handler gave `result` can be cut
/// within the byte limit.
pub open spec fn result_cuttable(result: Result<String, String>) -> bool {
    match result {
        Ok(s) => cuttable(s@, max_result_bytes()) && encode_utf8(s@).len() <= usize::MAX,
        Err(_) => true,
    }
}

/// The log entry of a finished request, if it is logged (see `logs`): the
/// entry of its call outcome (see `call_outcome`), under the name the api
/// is logged under.
pub fn oper_log_entry(
    enabled: bool,
    api: Option<ApiInfo>,
    user: Option<OnlineUser>,
    req: ReqCtx,
    result: Result<String, String>,
    duration_micros: u128,
    now: i64,
) -> (r: Option<OperLogRecord>)
    requires
        logs(enabled, api, user) ==> {
            &&& cuttable(req.data@, max_param_bytes())
            &&& encode_utf8(req.data@).len() <= usize::MAX
            &&& result_cuttable(result)
        },
    ensures
        r is Some <==> logs(enabled, api, user),
        r matches Some(rec) ==> match result {
            Ok(s) => is_entry_of(rec, req, s@, "1"@, Seq::empty(), duration_micros, spec_log_target(api).0, user->0, now),
            Err(e) => is_entry_of(rec, req, Seq::empty(), "0"@, e@, duration_micros, spec_log_target(api).0, user->0, now),
        },
{
    if !enabled {
        return None;
    }
    let (api_name, is_log) = log_target(&api);
    if !is_log {
        return None;
    }
    let user = match user {
        Some(u) => u,
        None => return None,
    };
    let (res, status, err_msg) = call_outcome(result);
    proof {
        assert(encode_utf8(Seq::<char>::empty()) =~= Seq::<u8>::empty());
    }
    Some(new_oper_log(req, res, status, err_msg, duration_micros, api_name, user, now))
}

} // verus!
