use axum_admin::role::{
    clears_user_role, role_add_plan, role_edit_plan, total_pages,
    data_scope_or_default, get_permissions_data, required_role_id, role_dept_rows, role_filters, MenuResp, PageParams, RoleFilter,
    SysRoleSearchReq,
};

fn search() -> SysRoleSearchReq {
    SysRoleSearchReq { role_ids: None, role_id: None, role_name: None, role_key: None, status: None }
}

#[test]
fn page_defaults() {
    assert_eq!(PageParams { page_num: None, page_size: None }.resolve(), (1, 10));
    assert_eq!(PageParams { page_num: Some(3), page_size: Some(20) }.resolve(), (3, 20));
}

#[test]
fn no_filters_for_empty_search() {
    assert!(role_filters(&search()).is_empty());
    let mut s = search();
    s.role_name = Some(String::new());
    assert!(role_filters(&s).is_empty());
}

#[test]
fn filters_in_order() {
    let s = SysRoleSearchReq {
        role_ids: Some("1,2,,3".to_string()),
        role_id: Some("9".to_string()),
        role_name: Some("adm".to_string()),
        role_key: Some("k".to_string()),
        status: Some("1".to_string()),
    };
    let f = role_filters(&s);
    assert_eq!(f.len(), 5);
    match &f[0] {
        RoleFilter::RoleIdIn(ids) => assert_eq!(ids, &vec!["1".to_string(), "2".to_string(), String::new(), "3".to_string()]),
        _ => panic!("ids first"),
    }
    assert!(matches!(&f[1], RoleFilter::RoleIdEq(x) if x == "9"));
    assert!(matches!(&f[2], RoleFilter::RoleNameContains(x) if x == "adm"));
    assert!(matches!(&f[3], RoleFilter::RoleKeyContains(x) if x == "k"));
    assert!(matches!(&f[4], RoleFilter::StatusEq(x) if x == "1"));
}

fn menu(id: &str, api: &str, method: &str) -> MenuResp {
    MenuResp { id: id.to_string(), api: api.to_string(), method: method.to_string() }
}

#[test]
fn permissions_from_menus() {
    let menus = vec![menu("m1", "system/user/list", "GET"), menu("m2", "system/user/add", "POST"), menu("m1", "system/user/edit", "PUT")];
    let ids = vec!["m2".to_string(), "missing".to_string(), "m1".to_string()];
    let rows = get_permissions_data("r1", &ids, &menus);
    assert_eq!(rows.len(), 2);
    assert_eq!((rows[0].role_id.as_str(), rows[0].api.as_str(), rows[0].method.as_deref()), ("r1", "system/user/add", Some("POST")));
    assert_eq!((rows[1].role_id.as_str(), rows[1].api.as_str(), rows[1].method.as_deref()), ("r1", "system/user/edit", Some("PUT")));
    assert!(get_permissions_data("r1", &Vec::new(), &menus).is_empty());
}

#[test]
fn data_scope_rows() {
    let depts = vec!["d1".to_string(), "d2".to_string()];
    assert_eq!(role_dept_rows("r", "2", &depts), Some(vec![("r".to_string(), "d1".to_string()), ("r".to_string(), "d2".to_string())]));
    assert_eq!(role_dept_rows("r", "1", &depts), None);
    assert_eq!(data_scope_or_default(None), "3");
    assert_eq!(data_scope_or_default(Some("2".to_string())), "2");
}

#[test]
fn role_id_is_required() {
    assert_eq!(required_role_id(&search()), Err("id不能为空".to_string()));
    let mut s = search();
    s.role_id = Some("r9".to_string());
    assert_eq!(required_role_id(&s), Ok("r9".to_string()));
}

#[test]
fn page_plans() {
    assert_eq!(PageParams { page_num: None, page_size: None }.fetch_plan(), (0, 10));
    assert_eq!(PageParams { page_num: Some(3), page_size: Some(20) }.fetch_plan(), (2, 20));
    assert_eq!(total_pages(0, 10), 0);
    assert_eq!(total_pages(10, 10), 1);
    assert_eq!(total_pages(11, 10), 2);
    assert_eq!(total_pages(u64::MAX, 2), u64::MAX / 2 + 1);
}

#[test]
fn role_add_and_edit_plans() {
    let menus = vec![menu("m1", "system/user/list", "GET")];
    let ids = vec!["m1".to_string()];
    assert_eq!(role_add_plan(1, None, &ids, &menus).err(), Some("数据已存在，请检查后重试".to_string()));
    let role = role_add_plan(0, None, &ids, &menus).unwrap();
    assert_eq!(role.role_id.len(), 25);
    assert_eq!(role.data_scope, "3");
    assert_eq!(role.api_rows.len(), 1);
    assert_eq!(role.api_rows[0].role_id, role.role_id);
    assert_eq!(role.api_rows[0].api, "system/user/list");
    assert_eq!(role.message, "添加成功");
    assert_eq!(role_edit_plan(0, 1, "r1", &ids, &menus).err(), Some("数据已存在".to_string()));
    let (rows, message) = role_edit_plan(0, 0, "r1", &ids, &menus).unwrap();
    assert_eq!(rows.len(), 1);
    assert_eq!(rows[0].role_id, "r1");
    assert_eq!(message, "角色数据更新成功");
}

#[test]
fn user_role_clearing() {
    let roles = vec!["a".to_string(), "b".to_string()];
    assert!(!clears_user_role(&Some("a".to_string()), &roles));
    assert!(clears_user_role(&Some("c".to_string()), &roles));
    assert!(!clears_user_role(&None, &roles));
    assert!(clears_user_role(&Some("a".to_string()), &vec![]));
}
