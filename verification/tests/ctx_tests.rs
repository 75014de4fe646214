use axum_admin::ctx::{body_text, build_req_ctx, UserInfoCtx};
use axum_admin::jwt::Claims;

fn user() -> UserInfoCtx {
    UserInfoCtx { id: "1".to_string(), token_id: "t".to_string(), name: "n".to_string() }
}

#[test]
fn context_of_a_request_with_a_query() {
    let c = build_req_ctx("/api/system/user/list".to_string(), "/api", "GET".to_string(), Some("page=2".to_string()), "{}".to_string(), user());
    assert_eq!(c.path, "system/user/list");
    assert_eq!(c.path_params, "page=2");
    assert_eq!(c.ori_uri, "/api/system/user/list?page=2");
    assert_eq!(c.method, "GET");
    assert_eq!(c.data, "{}");
    assert_eq!(c.user.id, "1");
}

#[test]
fn context_without_a_query() {
    let c = build_req_ctx("/api/system/user/list".to_string(), "/api", "POST".to_string(), None, String::new(), user());
    assert_eq!(c.path_params, "");
    assert_eq!(c.ori_uri, "/api/system/user/list");
    let c = build_req_ctx("/x".to_string(), "/api", "GET".to_string(), Some(String::new()), String::new(), user());
    assert_eq!(c.path, "/x");
    assert_eq!(c.ori_uri, "/x");
}

#[test]
fn body_texts() {
    assert_eq!(body_text("中文 ok".as_bytes()), "中文 ok");
    assert_eq!(body_text(&[0xff, 0xfe]), "该数据无法转输出，可能为blob，binary");
    assert_eq!(body_text(&[]), "");
}

#[test]
fn user_from_claims() {
    let c = Claims { id: "7".to_string(), token_id: "tt".to_string(), name: "nm".to_string(), exp: 0 };
    let u = UserInfoCtx::from_claims(&c);
    assert_eq!((u.id.as_str(), u.token_id.as_str(), u.name.as_str()), ("7", "tt", "nm"));
}
