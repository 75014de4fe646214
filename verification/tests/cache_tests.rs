use axum_admin::cache_groups::CacheGroups;
use axum_admin::cache_index::{get_key, CacheIndex};
use axum_admin::cache_plan::{cache_plan, data_key, follow_up, CacheFollowUp, CachePlan};
use axum_admin::ctx::{ApiInfo, ReqCtx, UserInfoCtx};

#[test]
fn keys_join_with_a_star() {
    assert_eq!(get_key("system/user/list", "/api/system/user/list_GET"), "system/user/list★/api/system/user/list_GET");
    assert_eq!(get_key("", ""), "★");
}

#[test]
fn added_entry_is_found() {
    let mut idx = CacheIndex::new();
    assert!(!idx.contains("a", "d1"));
    idx.add("a", "d1", 100);
    assert!(idx.contains("a", "d1"));
    assert!(!idx.contains("a", "d2"));
    idx.add("a", "d1", 200);
    assert!(idx.contains("a", "d1"));
}

#[test]
fn removing_apis_drops_their_entries() {
    let mut idx = CacheIndex::new();
    idx.add("system/user", "u1", 1);
    idx.add("system/role", "r1", 1);
    idx.add("system/user_list", "ul", 1);
    idx.add("system/user", "u2", 1);
    let dropped = idx.remove_apis(Some(vec!["system/user".to_string()]));
    assert_eq!(dropped, vec!["u1".to_string(), "ul".to_string(), "u2".to_string()]);
    assert!(!idx.contains("system/user", "u1"));
    assert!(!idx.contains("system/user_list", "ul"));
    assert!(idx.contains("system/role", "r1"));
    assert_eq!(idx.remove_apis(None), Vec::<String>::new());
    assert!(idx.contains("system/role", "r1"));
}

#[test]
fn removing_several_apis_in_turn() {
    let mut idx = CacheIndex::new();
    idx.add("a", "1", 1);
    idx.add("b", "2", 1);
    idx.add("c", "3", 1);
    let dropped = idx.remove_apis(Some(vec!["c".to_string(), "a".to_string()]));
    assert_eq!(dropped, vec!["3".to_string(), "1".to_string()]);
    assert!(idx.contains("b", "2"));
}

#[test]
fn expiry_drops_old_entries() {
    let mut idx = CacheIndex::new();
    idx.add("a", "old", 1_000);
    idx.add("a", "new", 60_000);
    idx.add("a", "future", 90_000);
    let dropped = idx.expire(62_000, 30);
    assert_eq!(dropped, vec!["old".to_string()]);
    assert!(!idx.contains("a", "old"));
    assert!(idx.contains("a", "new"));
    assert!(idx.contains("a", "future"));
    let dropped = idx.expire(62_000, 0);
    assert_eq!(dropped, vec!["new".to_string()]);
}

#[test]
fn data_key_with_a_star_keeps_its_first_part() {
    let mut idx = CacheIndex::new();
    idx.add("a", "x★y", 0);
    assert_eq!(idx.remove_apis(Some(vec!["a".to_string()])), vec!["x".to_string()]);
}

#[test]
fn groups_add_contains_remove() {
    let mut g = CacheGroups::new();
    assert!(!g.contains("a", "1"));
    g.add("a", "1");
    g.add("a", "2");
    g.add("a", "1");
    g.add("b", "3");
    assert!(g.contains("a", "1"));
    assert!(g.contains("a", "2"));
    assert!(g.contains("b", "3"));
    assert!(!g.contains("b", "1"));
    g.remove_apis(Some(vec!["a".to_string()]));
    assert!(!g.contains("a", "1"));
    assert!(g.contains("b", "3"));
    g.remove_apis(None);
    assert!(g.contains("b", "3"));
}

fn ctx(method: &str) -> ReqCtx {
    ReqCtx {
        ori_uri: "/api/system/user/list?page=1".to_string(),
        path: "system/user/list".to_string(),
        path_params: "page=1".to_string(),
        method: method.to_string(),
        user: UserInfoCtx { id: "1".to_string(), token_id: "T".to_string(), name: "n".to_string() },
        data: String::new(),
    }
}

fn api(method: &str, related: Option<Vec<String>>) -> ApiInfo {
    ApiInfo {
        name: "list".to_string(),
        data_cache_method: method.to_string(),
        log_method: "0".to_string(),
        related_api: related,
        is_log: true,
    }
}

#[test]
fn data_keys() {
    assert_eq!(data_key("/u?x=1", "GET", "TOK", "1"), "/u?x=1_GET_TOK");
    assert_eq!(data_key("/u?x=1", "GET", "TOK", "2"), "/u?x=1_GET");
}

#[test]
fn plans() {
    match cache_plan(&ctx("POST"), Some(api("1", Some(vec!["x".to_string()]))), "TOK") {
        CachePlan::Forward { related_api } => assert_eq!(related_api, Some(vec!["x".to_string()])),
        _ => panic!("expected forward"),
    }
    match cache_plan(&ctx("PUT"), None, "TOK") {
        CachePlan::Forward { related_api } => assert_eq!(related_api, None),
        _ => panic!("expected forward"),
    }
    assert!(matches!(cache_plan(&ctx("GET"), None, "TOK"), CachePlan::Bypass));
    assert!(matches!(cache_plan(&ctx("GET"), Some(api("0", None)), "TOK"), CachePlan::Bypass));
    match cache_plan(&ctx("GET"), Some(api("1", None)), "TOK") {
        CachePlan::Cached { api_key, data_key } => {
            assert_eq!(api_key, "system/user/list");
            assert_eq!(data_key, "/api/system/user/list?page=1_GET_TOK");
        }
        _ => panic!("expected cached"),
    }
    match cache_plan(&ctx("GET"), Some(api("2", None)), "TOK") {
        CachePlan::Cached { data_key, .. } => assert_eq!(data_key, "/api/system/user/list?page=1_GET"),
        _ => panic!("expected cached"),
    }
}

#[test]
fn only_successful_answers_touch_the_cache() {
    let drop = follow_up(CachePlan::Forward { related_api: Some(vec!["a".to_string()]) }, true);
    assert!(matches!(drop, CacheFollowUp::DropApis(Some(v)) if v == vec!["a".to_string()]));
    let failed = follow_up(CachePlan::Forward { related_api: Some(vec!["a".to_string()]) }, false);
    assert!(matches!(failed, CacheFollowUp::Nothing));
    let store = follow_up(CachePlan::Cached { api_key: "k".to_string(), data_key: "d".to_string() }, true);
    assert!(matches!(store, CacheFollowUp::Store { api_key, data_key } if api_key == "k" && data_key == "d"));
    let miss_failed = follow_up(CachePlan::Cached { api_key: "k".to_string(), data_key: "d".to_string() }, false);
    assert!(matches!(miss_failed, CacheFollowUp::Nothing));
    assert!(matches!(follow_up(CachePlan::Bypass, true), CacheFollowUp::Nothing));
}
