//! The rows that link users, roles, departments, apis and databases, as the
//! management services write them.
use vstd::prelude::*;

use crate::ids::{is_scru128_text, new_id};
use crate::role::SysRoleApiAddReq;

verus! {

/// A row linking `left` to `right` (a user to a role, a user to a
/// department, ...), with a fresh id and its author.
pub struct LinkRow {
    pub id: String,
    pub left: String,
    pub right: String,
    pub created_by: String,
}

/// The rows linking `left` to each of `rights`, in order, each with a fresh
/// id.
pub fn rows_for_left(left: &str, rights: &Vec<String>, created_by: &str) -> (rows: Vec<LinkRow>)
    ensures
        rows@.len() == rights@.len(),
        forall|i: int| 0 <= i < rows@.len() ==> {
            &&& is_scru128_text((#[trigger] rows@[i]).id@)
            &&& rows@[i].left@ == left@
            &&& rows@[i].right@ == rights@[i]@
            &&& rows@[i].created_by@ == created_by@
        },
{
    let mut rows: Vec<LinkRow> = Vec::new();
    let mut i: usize = 0;
    while i < rights.len()
        invariant
            i <= rights@.len(),
            rows@.len() == i,
            forall|k: int| 0 <= k < i ==> {
                &&& is_scru128_text((#[trigger] rows@[k]).id@)
                &&& rows@[k].left@ == left@
                &&& rows@[k].right@ == rights@[k]@
                &&& rows@[k].created_by@ == created_by@
            },
        decreases rights@.len() - i,
    {
        rows.push(LinkRow { id: new_id(), left: left.to_owned(), right: rights[i].clone(), created_by: created_by.to_owned() });
        i = i + 1;
    }
    rows
}

/// The rows linking each of `lefts`, in order, to `right`, each with a
/// fresh id.
pub fn rows_for_right(lefts: &Vec<String>, right: &str, created_by: &str) -> (rows: Vec<LinkRow>)
    ensures
        rows@.len() == lefts@.len(),
        forall|i: int| 0 <= i < rows@.len() ==> {
            &&& is_scru128_text((#[trigger] rows@[i]).id@)
            &&& rows@[i].left@ == lefts@[i]@
            &&& rows@[i].right@ == right@
            &&& rows@[i].created_by@ == created_by@
        },
{
    let mut rows: Vec<LinkRow> = Vec::new();
    let mut i: usize = 0;
    while i < lefts.len()
        invariant
            i <= lefts@.len(),
            rows@.len() == i,
            forall|k: int| 0 <= k < i ==> {
                &&& is_scru128_text((#[trigger] rows@[k]).id@)
                &&& rows@[k].left@ == lefts@[k]@
                &&& rows@[k].right@ == right@
                &&& rows@[k].created_by@ == created_by@
            },
        decreases lefts@.len() - i,
    {
        rows.push(LinkRow { id: new_id(), left: lefts[i].clone(), right: right.to_owned(), created_by: created_by.to_owned() });
        i = i + 1;
    }
    rows
}

/// A permission row of a role as written: a fresh id, the role, the api,
/// the method and the author.
pub struct RoleApiRow {
    pub id: String,
    pub role_id: String,
    pub api: String,
    pub method: Option<String>,
    pub created_by: String,
}

/// The permission rows written for the given permissions, in order.
pub fn role_api_rows(perms: &Vec<SysRoleApiAddReq>, created_by: &str) -> (rows: Vec<RoleApiRow>)
    ensures
        rows@.len() == perms@.len(),
        forall|i: int| 0 <= i < rows@.len() ==> {
            &&& is_scru128_text((#[trigger] rows@[i]).id@)
            &&& rows@[i].role_id@ == perms@[i].role_id@
            &&& rows@[i].api@ == perms@[i].api@
            &&& rows@[i].method == perms@[i].method
            &&& rows@[i].created_by@ == created_by@
        },
{
    let mut rows: Vec<RoleApiRow> = Vec::new();
    let mut i: usize = 0;
    while i < perms.len()
        invariant
            i <= perms@.len(),
            rows@.len() == i,
            forall|k: int| 0 <= k < i ==> {
                &&& is_scru128_text((#[trigger] rows@[k]).id@)
                &&& rows@[k].role_id@ == perms@[k].role_id@
                &&& rows@[k].api@ == perms@[k].api@
                &&& rows@[k].method == perms@[k].method
                &&& rows@[k].created_by@ == created_by@
            },
        decreases perms@.len() - i,
    {
        let p = &perms[i];
        let method = match &p.method {
            Some(m) => Some(m.clone()),
            None => None,
        };
        rows.push(RoleApiRow {
            id: new_id(),
            role_id: p.role_id.clone(),
            api: p.api.clone(),
            method,
            created_by: created_by.to_owned(),
        });
        i = i + 1;
    }
    rows
}

/// The rows linking an api to each of the databases it uses, in order.
pub fn api_db_rows(api_id: &str, dbs: &Vec<String>) -> (rows: Vec<(String, String)>)
    ensures
        rows@.len() == dbs@.len(),
        forall|i: int| 0 <= i < rows@.len() ==> (#[trigger] rows@[i]).0@ == api_id@ && rows@[i].1@ == dbs@[i]@,
{
    let mut rows: Vec<(String, String)> = Vec::new();
    let mut i: usize = 0;
    while i < dbs.len()
        invariant
            i <= dbs@.len(),
            rows@.len() == i,
            forall|k: int| 0 <= k < i ==> (#[trigger] rows@[k]).0@ == api_id@ && rows@[k].1@ == dbs@[k]@,
        decreases dbs@.len() - i,
    {
        rows.push((api_id.to_owned(), dbs[i].clone()));
        i = i + 1;
    }
    rows
}

} // verus!
