use axum_admin::links::{api_db_rows, role_api_rows, rows_for_left, rows_for_right};
use axum_admin::role::SysRoleApiAddReq;

#[test]
fn rows_for_a_user() {
    let roles = vec!["r1".to_string(), "r2".to_string()];
    let rows = rows_for_left("u1", &roles, "admin");
    assert_eq!(rows.len(), 2);
    for (row, role) in rows.iter().zip(roles.iter()) {
        assert_eq!(row.id.len(), 25);
        assert_eq!(row.left, "u1");
        assert_eq!(&row.right, role);
        assert_eq!(row.created_by, "admin");
    }
    assert_ne!(rows[0].id, rows[1].id);
}

#[test]
fn rows_for_a_role() {
    let users = vec!["u1".to_string(), "u2".to_string(), "u3".to_string()];
    let rows = rows_for_right(&users, "r1", "admin");
    assert_eq!(rows.iter().map(|r| r.left.clone()).collect::<Vec<_>>(), users);
    assert!(rows.iter().all(|r| r.right == "r1"));
}

#[test]
fn permission_rows() {
    let perms = vec![SysRoleApiAddReq { role_id: "r".to_string(), api: "a".to_string(), method: Some("GET".to_string()) }];
    let rows = role_api_rows(&perms, "me");
    assert_eq!(rows.len(), 1);
    assert_eq!((rows[0].role_id.as_str(), rows[0].api.as_str(), rows[0].method.as_deref(), rows[0].created_by.as_str()), ("r", "a", Some("GET"), "me"));
}

#[test]
fn api_database_rows() {
    let dbs = vec!["sys_user".to_string(), "sys_role".to_string()];
    assert_eq!(api_db_rows("api1", &dbs), vec![("api1".to_string(), "sys_user".to_string()), ("api1".to_string(), "sys_role".to_string())]);
    assert!(api_db_rows("api1", &Vec::new()).is_empty());
}
