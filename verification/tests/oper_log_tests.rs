use axum_admin::ctx::{ApiInfo, ReqCtx, UserInfoCtx};
use axum_admin::oper_log::{call_outcome, cut_text, log_target, new_oper_log, oper_log_entry, operator_type, OnlineUser};

#[test]
fn operator_types() {
    assert_eq!(operator_type("GET"), "1");
    assert_eq!(operator_type("POST"), "2");
    assert_eq!(operator_type("PUT"), "3");
    assert_eq!(operator_type("DELETE"), "4");
    assert_eq!(operator_type("PATCH"), "0");
}

#[test]
fn cutting_texts() {
    assert_eq!(cut_text("abcdef".to_string(), 3), "abc");
    assert_eq!(cut_text("abc".to_string(), 3), "abc");
    assert_eq!(cut_text("ab".to_string(), 3), "ab");
    assert_eq!(cut_text("中文字".to_string(), 6), "中文");
}

#[test]
fn log_targets() {
    assert_eq!(log_target(&None), (String::new(), true));
    let a = ApiInfo { name: "用户列表".to_string(), data_cache_method: "0".to_string(), log_method: "1".to_string(), related_api: None, is_log: false };
    assert_eq!(log_target(&Some(a)), ("用户列表".to_string(), false));
}

#[test]
fn outcomes() {
    assert_eq!(call_outcome(Ok("{\"code\":200}".to_string())), ("{\"code\":200}".to_string(), "1".to_string(), String::new()));
    assert_eq!(call_outcome(Err("boom".to_string())), (String::new(), "0".to_string(), "boom".to_string()));
}

#[test]
fn log_entry_of_a_request() {
    let req = ReqCtx {
        ori_uri: "/api/system/user/edit?x=1".to_string(),
        path: "system/user/edit".to_string(),
        path_params: "x=1".to_string(),
        method: "PUT".to_string(),
        user: UserInfoCtx { id: "1".to_string(), token_id: "t".to_string(), name: "admin".to_string() },
        data: "d".repeat(1500),
    };
    let user = OnlineUser { dept_name: "IT".to_string(), ipaddr: "127.0.0.1".to_string(), login_location: "local".to_string() };
    let rec = new_oper_log(req, "r".repeat(20), "1".to_string(), String::new(), 1_234, "编辑用户".to_string(), user, 1_700_000_000);
    assert_eq!(rec.oper_id.len(), 25);
    assert_eq!(rec.time_id, 1_700_000_000);
    assert_eq!(rec.title, "编辑用户");
    assert_eq!(rec.business_type, "");
    assert_eq!(rec.method, "system/user/edit");
    assert_eq!(rec.request_method, "PUT");
    assert_eq!(rec.operator_type, "3");
    assert_eq!(rec.oper_name, "admin");
    assert_eq!(rec.dept_name, "IT");
    assert_eq!(rec.oper_url, "/api/system/user/edit?x=1");
    assert_eq!(rec.oper_ip, "127.0.0.1");
    assert_eq!(rec.oper_location, "local");
    assert_eq!(rec.oper_param, "d".repeat(1000));
    assert_eq!(rec.json_result, "r".repeat(20));
    assert_eq!(rec.path_param, "x=1");
    assert_eq!(rec.status, "1");
    assert_eq!(rec.error_msg, "");
    assert_eq!(rec.duration, 1_234);
    assert_eq!(rec.oper_time, 1_700_000_000);
}

#[test]
fn long_durations_wrap_like_the_conversion() {
    let req = ReqCtx {
        ori_uri: String::new(),
        path: String::new(),
        path_params: String::new(),
        method: "GET".to_string(),
        user: UserInfoCtx { id: String::new(), token_id: String::new(), name: String::new() },
        data: String::new(),
    };
    let user = OnlineUser { dept_name: String::new(), ipaddr: String::new(), login_location: String::new() };
    let rec = new_oper_log(req, String::new(), "0".to_string(), "e".to_string(), (1u128 << 64) + 5, String::new(), user, 0);
    assert_eq!(rec.duration, 5);
    assert_eq!(rec.error_msg, "e");
}

fn entry_req() -> ReqCtx {
    ReqCtx {
        ori_uri: "/api/system/user/list".to_string(),
        path: "system/user/list".to_string(),
        path_params: String::new(),
        method: "GET".to_string(),
        user: UserInfoCtx { id: "1".to_string(), token_id: "t".to_string(), name: "admin".to_string() },
        data: "q".to_string(),
    }
}

fn online() -> Option<OnlineUser> {
    Some(OnlineUser { dept_name: "IT".to_string(), ipaddr: "10.0.0.1".to_string(), login_location: "here".to_string() })
}

fn logged_api(is_log: bool) -> Option<ApiInfo> {
    Some(ApiInfo {
        name: "用户列表".to_string(),
        data_cache_method: "0".to_string(),
        log_method: "0".to_string(),
        related_api: None,
        is_log,
    })
}

#[test]
fn entries_pass_the_three_gates() {
    assert!(oper_log_entry(false, logged_api(true), online(), entry_req(), Ok("r".to_string()), 1, 2).is_none());
    assert!(oper_log_entry(true, logged_api(false), online(), entry_req(), Ok("r".to_string()), 1, 2).is_none());
    assert!(oper_log_entry(true, logged_api(true), None, entry_req(), Ok("r".to_string()), 1, 2).is_none());
    let rec = oper_log_entry(true, logged_api(true), online(), entry_req(), Ok("r".to_string()), 7, 9).unwrap();
    assert_eq!(rec.title, "用户列表");
    assert_eq!(rec.status, "1");
    assert_eq!(rec.json_result, "r");
    assert_eq!(rec.error_msg, "");
    assert_eq!(rec.dept_name, "IT");
    assert_eq!(rec.duration, 7);
    assert_eq!(rec.oper_time, 9);
    let failed = oper_log_entry(true, None, online(), entry_req(), Err("boom".to_string()), 7, 9).unwrap();
    assert_eq!(failed.title, "");
    assert_eq!(failed.status, "0");
    assert_eq!(failed.json_result, "");
    assert_eq!(failed.error_msg, "boom");
}
