use axum_admin::access::{access, auth_fn_refusal, granted_permissions, refusal, route_source, user_info_outcome, Access, RouteSource};
use axum_admin::config::System;

fn system() -> System {
    System { super_user: vec!["00TV87DDOBJPU75J4TGUOC3NNG".to_string()], user_agent_parser: String::new() }
}

#[test]
fn super_users() {
    assert!(system().is_super_user("00TV87DDOBJPU75J4TGUOC3NNG"));
    assert!(!system().is_super_user("someone"));
}

#[test]
fn access_decisions() {
    assert!(matches!(access(true, true, false), Access::Allow));
    assert!(matches!(access(false, false, false), Access::Allow));
    assert!(matches!(access(false, true, true), Access::Allow));
    assert!(matches!(access(false, true, false), Access::Deny));
    assert_eq!(refusal(), (403, "你没有权限访问该页面/API".to_string()));
    assert_eq!(auth_fn_refusal(), 401);
}

#[test]
fn permissions_and_routes() {
    assert_eq!(granted_permissions(&system(), "00TV87DDOBJPU75J4TGUOC3NNG"), Some(vec!["*:*:*".to_string()]));
    assert_eq!(granted_permissions(&system(), "u"), None);
    assert!(matches!(route_source(&system(), "00TV87DDOBJPU75J4TGUOC3NNG"), RouteSource::AllRoutes));
    assert!(matches!(route_source(&system(), "u"), RouteSource::RoleRoutes));
}

#[test]
fn user_info_takes_the_first_error() {
    let ok = user_info_outcome(Ok(vec!["r".to_string()]), Ok(vec!["d".to_string()]), Ok(("user", vec!["p".to_string()])));
    match ok {
        Ok(info) => {
            assert_eq!(info.user, "user");
            assert_eq!(info.roles, vec!["r".to_string()]);
            assert_eq!(info.depts, vec!["d".to_string()]);
            assert_eq!(info.permissions, vec!["p".to_string()]);
        }
        Err(_) => panic!("expected info"),
    }
    let e = user_info_outcome::<&str>(Err("roles".to_string()), Err("depts".to_string()), Err("user".to_string()));
    assert_eq!(e.err(), Some("roles".to_string()));
    let e = user_info_outcome::<&str>(Ok(vec![]), Err("depts".to_string()), Err("user".to_string()));
    assert_eq!(e.err(), Some("depts".to_string()));
    let e = user_info_outcome::<&str>(Ok(vec![]), Ok(vec![]), Err("user".to_string()));
    assert_eq!(e.err(), Some("user".to_string()));
}

#[test]
fn memory_figures_in_bytes() {
    assert_eq!(axum_admin::machine::kib_to_bytes(0), 0);
    assert_eq!(axum_admin::machine::kib_to_bytes(3), 3072);
}
