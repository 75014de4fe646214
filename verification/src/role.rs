//! Roles: the search filters of the role list, the permissions a role gets
//! from its menus, and its department rows.
use vstd::prelude::*;

use crate::ids::{is_scru128_text, new_id};
use crate::outcome::{role_add_check, role_add_exists_message, role_edit_check, role_edit_exists_message};
use crate::text::{contains_text, seq_has_text, spec_split, split_char, str_eq};

verus! {

/// Paging of a list request.
pub struct PageParams {
    pub page_num: Option<u64>,
    pub page_size: Option<u64>,
}

impl PageParams {
    /// The page asked for (1 when not given) and its size (10 when not
    /// given).
    pub fn resolve(&self) -> (r: (u64, u64))
        ensures
            r.0 == (match self.page_num {
                Some(n) => n,
                None => 1,
            }),
            r.1 == (match self.page_size {
                Some(n) => n,
                None => 10,
            }),
    {
        let num = match self.page_num {
            Some(n) => n,
            None => 1,
        };
        let size = match self.page_size {
            Some(n) => n,
            None => 10,
        };
        (num, size)
    }
}

impl PageParams {
    /// Which page a list takes, counted from 0, and its size: the page
    /// asked for less one, and the size (see `resolve`). A page number or
    /// size of 0 is left out: page numbers count from 1, and a page holds at
    /// least one row.
    pub fn fetch_plan(&self) -> (r: (u64, u64))
        requires
            self.page_num != Some(0u64),
            self.page_size != Some(0u64),
        ensures
            r.0 + 1 == (match self.page_num {
                Some(n) => n,
                None => 1,
            }),
            r.1 == (match self.page_size {
                Some(n) => n,
                None => 10,
            }),
            r.1 > 0,
    {
        let (num, size) = self.resolve();
        (num - 1, size)
    }
}

/// How many pages of `size` rows `total` rows fill: the quotient rounded
/// up.
pub fn total_pages(total: u64, size: u64) -> (pages: u64)
    requires
        size > 0,
    ensures
        pages == (total + size - 1) / size as int,
        pages as int * size >= total,
        (pages as int - 1) * size < total || pages == 0,
{
    let q = total / size;
    assert(total % size != 0 ==> q < 0xffff_ffff_ffff_ffffu64) by (nonlinear_arith)
        requires
            size > 0,
            q == total / size,
            total <= 0xffff_ffff_ffff_ffffu64,
    ;
    let p = if total % size == 0 { q } else { q + 1 };
    assert(p == (total + size - 1) / size as int) by (nonlinear_arith)
        requires
            size > 0,
            q == total / size,
            p == (if total % size == 0 { q as int } else { q + 1 }),
    ;
    assert(p as int * size >= total) by (nonlinear_arith)
        requires
            size > 0,
            q == total / size,
            p == (if total % size == 0 { q as int } else { q + 1 }),
    ;
    assert((p as int - 1) * size < total || p == 0) by (nonlinear_arith)
        requires
            size > 0,
            q == total / size,
            p == (if total % size == 0 { q as int } else { q + 1 }),
    ;
    p
}

/// The search fields of the role list.
pub struct SysRoleSearchReq {
    /// Comma-separated role ids.
    pub role_ids: Option<String>,
    pub role_id: Option<String>,
    pub role_name: Option<String>,
    pub role_key: Option<String>,
    pub status: Option<String>,
}

/// One condition on the listed roles.
pub enum RoleFilter {
    /// The role id is one of these.
    RoleIdIn(Vec<String>),
    /// The role id is this.
    RoleIdEq(String),
    /// The role name contains this.
    RoleNameContains(String),
    /// The role key contains this.
    RoleKeyContains(String),
    /// The status is this.
    StatusEq(String),
}

/// The abstract value of a condition.
pub enum RoleFilterView {
    RoleIdIn(Seq<Seq<char>>),
    RoleIdEq(Seq<char>),
    RoleNameContains(Seq<char>),
    RoleKeyContains(Seq<char>),
    StatusEq(Seq<char>),
}

impl RoleFilter {
    /// The abstract value of this condition.
    pub open spec fn view_of(self) -> RoleFilterView {
        match self {
            RoleFilter::RoleIdIn(v) => RoleFilterView::RoleIdIn(v@.map_values(|s: String| s@)),
            RoleFilter::RoleIdEq(s) => RoleFilterView::RoleIdEq(s@),
            RoleFilter::RoleNameContains(s) => RoleFilterView::RoleNameContains(s@),
            RoleFilter::RoleKeyContains(s) => RoleFilterView::RoleKeyContains(s@),
            RoleFilter::StatusEq(s) => RoleFilterView::StatusEq(s@),
        }
    }
}

/// A field's value when it is given and not empty.
pub open spec fn given(f: Option<String>) -> Option<Seq<char>> {
    match f {
        Some(s) => if s@.len() > 0 {
            Some(s@)
        } else {
            None
        },
        None => None,
    }
}

/// The condition a field adds, if any.
pub open spec fn cond(f: Option<String>, mk: spec_fn(Seq<char>) -> RoleFilterView) -> Seq<RoleFilterView> {
    match given(f) {
        Some(s) => seq![mk(s)],
        None => Seq::empty(),
    }
}

/// A field counts as given exactly when it is present and not empty, and
/// then with its own text, whatever that text is ("0" included).
pub proof fn law_given(f: Option<String>)
    ensures
        (f is Some && f->0@.len() > 0) ==> given(f) == Some(f->0@),
        (f is None || f->0@.len() == 0) ==> given(f) is None,
{
}

/// Whether a field is present and not empty.
pub open spec fn present(f: Option<String>) -> bool {
    f is Some && f->0@.len() > 0
}

proof fn lemma_in_sum(a: Seq<RoleFilterView>, b: Seq<RoleFilterView>, x: RoleFilterView)
    ensures
        (a.contains(x) || b.contains(x)) ==> (a + b).contains(x),
{
    if a.contains(x) {
        let i = choose|i: int| 0 <= i < a.len() && a[i] == x;
        assert((a + b)[i] == x);
    } else if b.contains(x) {
        let i = choose|i: int| 0 <= i < b.len() && b[i] == x;
        assert((a + b)[a.len() + i] == x);
    }
}

/// Every field of a role search that is present and not empty is searched
/// on with its own text: the listed ids (split at commas), the id and the
/// status by equality, the name and key by containment; a search with no
/// such field has no conditions.
pub proof fn law_role_search_fields(req: SysRoleSearchReq)
    ensures
        present(req.role_ids) ==> spec_role_filters(req).contains(RoleFilterView::RoleIdIn(spec_split(req.role_ids->0@, ','))),
        present(req.role_id) ==> spec_role_filters(req).contains(RoleFilterView::RoleIdEq(req.role_id->0@)),
        present(req.role_name) ==> spec_role_filters(req).contains(RoleFilterView::RoleNameContains(req.role_name->0@)),
        present(req.role_key) ==> spec_role_filters(req).contains(RoleFilterView::RoleKeyContains(req.role_key->0@)),
        present(req.status) ==> spec_role_filters(req).contains(RoleFilterView::StatusEq(req.status->0@)),
        !present(req.role_ids) && !present(req.role_id) && !present(req.role_name) && !present(req.role_key)
            && !present(req.status) ==> spec_role_filters(req).len() == 0,
{
    let c1 = cond(req.role_ids, |s: Seq<char>| RoleFilterView::RoleIdIn(spec_split(s, ',')));
    let c2 = cond(req.role_id, |s: Seq<char>| RoleFilterView::RoleIdEq(s));
    let c3 = cond(req.role_name, |s: Seq<char>| RoleFilterView::RoleNameContains(s));
    let c4 = cond(req.role_key, |s: Seq<char>| RoleFilterView::RoleKeyContains(s));
    let c5 = cond(req.status, |s: Seq<char>| RoleFilterView::StatusEq(s));
    let xs = seq![
        RoleFilterView::RoleIdIn(spec_split(req.role_ids->0@, ',')),
        RoleFilterView::RoleIdEq(req.role_id->0@),
        RoleFilterView::RoleNameContains(req.role_name->0@),
        RoleFilterView::RoleKeyContains(req.role_key->0@),
        RoleFilterView::StatusEq(req.status->0@),
    ];
    if present(req.role_ids) {
        assert(c1[0] == xs[0]);
    }
    if present(req.role_id) {
        assert(c2[0] == xs[1]);
    }
    if present(req.role_name) {
        assert(c3[0] == xs[2]);
    }
    if present(req.role_key) {
        assert(c4[0] == xs[3]);
    }
    if present(req.status) {
        assert(c5[0] == xs[4]);
    }
    assert forall|n: int| 0 <= n < 5 implies ({
        let x = #[trigger] xs[n];
        (c1.contains(x) || c2.contains(x) || c3.contains(x) || c4.contains(x) || c5.contains(x))
            ==> (c1 + c2 + c3 + c4 + c5).contains(x)
    }) by {
        let x = xs[n];
        lemma_in_sum(c1, c2, x);
        lemma_in_sum(c1 + c2, c3, x);
        lemma_in_sum(c1 + c2 + c3, c4, x);
        lemma_in_sum(c1 + c2 + c3 + c4, c5, x);
    }
}

/// The conditions of a role search, in this order: the listed ids (split at
/// commas), the id, the name, the key and the status, each only when it is
/// given and not empty.
pub open spec fn spec_role_filters(req: SysRoleSearchReq) -> Seq<RoleFilterView> {
    cond(req.role_ids, |s: Seq<char>| RoleFilterView::RoleIdIn(spec_split(s, ',')))
        + cond(req.role_id, |s: Seq<char>| RoleFilterView::RoleIdEq(s))
        + cond(req.role_name, |s: Seq<char>| RoleFilterView::RoleNameContains(s))
        + cond(req.role_key, |s: Seq<char>| RoleFilterView::RoleKeyContains(s))
        + cond(req.status, |s: Seq<char>| RoleFilterView::StatusEq(s))
}

fn given_text(f: &Option<String>) -> (r: Option<String>)
    ensures
        match (r, given(*f)) {
            (Some(a), Some(b)) => a@ == b,
            (None, None) => true,
            _ => false,
        },
{
    match f {
        Some(s) => if s.as_str().is_empty() {
            None
        } else {
            Some(s.clone())
        },
        None => None,
    }
}

/// The conditions of a role search (see `spec_role_filters`).
pub fn role_filters(req: &SysRoleSearchReq) -> (fs: Vec<RoleFilter>)
    ensures
        fs@.map_values(|f: RoleFilter| f.view_of()) == spec_role_filters(*req),
{
    let mut fs: Vec<RoleFilter> = Vec::new();
    let ghost mut expect: Seq<RoleFilterView> = Seq::empty();
    proof {
        assert(fs@.map_values(|f: RoleFilter| f.view_of()) =~= expect);
    }
    if let Some(ids) = given_text(&req.role_ids) {
        let pieces = split_char(ids.as_str(), ',');
        let ghost before = fs@;
        fs.push(RoleFilter::RoleIdIn(pieces));
        proof {
            assert(pieces@.map_values(|s: String| s@) =~= spec_split(ids@, ','));
            assert(fs@ =~= before.push(RoleFilter::RoleIdIn(pieces)));
        }
    }
    let ghost e1 = cond(req.role_ids, |s: Seq<char>| RoleFilterView::RoleIdIn(spec_split(s, ',')));
    assert(fs@.map_values(|f: RoleFilter| f.view_of()) =~= e1);
    if let Some(x) = given_text(&req.role_id) {
        fs.push(RoleFilter::RoleIdEq(x));
    }
    let ghost e2 = e1 + cond(req.role_id, |s: Seq<char>| RoleFilterView::RoleIdEq(s));
    assert(fs@.map_values(|f: RoleFilter| f.view_of()) =~= e2);
    if let Some(x) = given_text(&req.role_name) {
        fs.push(RoleFilter::RoleNameContains(x));
    }
    let ghost e3 = e2 + cond(req.role_name, |s: Seq<char>| RoleFilterView::RoleNameContains(s));
    assert(fs@.map_values(|f: RoleFilter| f.view_of()) =~= e3);
    if let Some(x) = given_text(&req.role_key) {
        fs.push(RoleFilter::RoleKeyContains(x));
    }
    let ghost e4 = e3 + cond(req.role_key, |s: Seq<char>| RoleFilterView::RoleKeyContains(s));
    assert(fs@.map_values(|f: RoleFilter| f.view_of()) =~= e4);
    if let Some(x) = given_text(&req.status) {
        fs.push(RoleFilter::StatusEq(x));
    }
    let ghost e5 = e4 + cond(req.status, |s: Seq<char>| RoleFilterView::StatusEq(s));
    assert(fs@.map_values(|f: RoleFilter| f.view_of()) =~= e5);
    fs
}


/// What the permission rows of a role read of a menu.
pub struct MenuResp {
    pub id: String,
    pub api: String,
    pub method: String,
}

/// A permission row of a role: the role may call `api` with `method`.
pub struct SysRoleApiAddReq {
    pub role_id: String,
    pub api: String,
    pub method: Option<String>,
}

/// The abstract value of a menu: its id, api and method.
pub open spec fn menu_view(m: MenuResp) -> (Seq<char>, Seq<char>, Seq<char>) {
    (m.id@, m.api@, m.method@)
}

/// The abstract value of a permission row: role id, api and method (always
/// given here).
pub open spec fn row_view(r: SysRoleApiAddReq) -> (Seq<char>, Seq<char>, Option<Seq<char>>) {
    (r.role_id@, r.api@, match r.method {
        Some(m) => Some(m@),
        None => None,
    })
}

/// Where the last menu with id `id` is: when menus are looked up by id,
/// a later menu with the same id replaces an earlier one.
pub open spec fn last_menu(menus: Seq<(Seq<char>, Seq<char>, Seq<char>)>, id: Seq<char>) -> Option<int>
    decreases menus.len(),
{
    if menus.len() == 0 {
        None
    } else if menus.last().0 == id {
        Some(menus.len() - 1)
    } else {
        last_menu(menus.drop_last(), id)
    }
}

/// The permission rows of a role with the given menu ids: for each id, in
/// order, whose menu exists, the menu's api and method.
pub open spec fn spec_permissions(
    role_id: Seq<char>,
    menu_ids: Seq<Seq<char>>,
    menus: Seq<(Seq<char>, Seq<char>, Seq<char>)>,
) -> Seq<(Seq<char>, Seq<char>, Option<Seq<char>>)>
    decreases menu_ids.len(),
{
    if menu_ids.len() == 0 {
        Seq::empty()
    } else {
        let r = spec_permissions(role_id, menu_ids.drop_last(), menus);
        match last_menu(menus, menu_ids.last()) {
            Some(i) => r.push((role_id, menus[i].1, Some(menus[i].2))),
            None => r,
        }
    }
}

proof fn lemma_last_menu_bounds(menus: Seq<(Seq<char>, Seq<char>, Seq<char>)>, id: Seq<char>)
    ensures
        last_menu(menus, id) matches Some(i) ==> 0 <= i < menus.len() && menus[i].0 == id,
    decreases menus.len(),
{
    if menus.len() > 0 && menus.last().0 != id {
        lemma_last_menu_bounds(menus.drop_last(), id);
    }
}

fn find_last_menu(menus: &Vec<MenuResp>, id: &str) -> (r: Option<usize>)
    ensures
        match (r, last_menu(menus@.map_values(|m: MenuResp| menu_view(m)), id@)) {
            (Some(a), Some(b)) => a == b,
            (None, None) => true,
            _ => false,
        },
{
    let ghost mv = menus@.map_values(|m: MenuResp| menu_view(m));
    let mut i = menus.len();
    proof {
        assert(mv.take(i as int) =~= mv);
    }
    while i > 0
        invariant
            i <= menus@.len(),
            mv == menus@.map_values(|m: MenuResp| menu_view(m)),
            last_menu(mv, id@) == last_menu(mv.take(i as int), id@),
        decreases i,
    {
        let ghost t = mv.take(i as int);
        proof {
            assert(t.drop_last() =~= mv.take(i - 1));
            assert(t.last() == mv[i - 1]);
        }
        if str_eq(menus[i - 1].id.as_str(), id) {
            return Some(i - 1);
        }
        i = i - 1;
    }
    proof {
        assert(mv.take(0) =~= Seq::<(Seq<char>, Seq<char>, Seq<char>)>::empty());
    }
    None
}

/// The permission rows a role gets from its menu ids, given all menus (see
/// `spec_permissions`).
pub fn get_permissions_data(role_id: &str, menu_ids: &Vec<String>, menus: &Vec<MenuResp>) -> (rows: Vec<
    SysRoleApiAddReq,
>)
    ensures
        rows@.map_values(|r: SysRoleApiAddReq| row_view(r)) == spec_permissions(
            role_id@,
            menu_ids@.map_values(|s: String| s@),
            menus@.map_values(|m: MenuResp| menu_view(m)),
        ),
{
    let ghost mv = menus@.map_values(|m: MenuResp| menu_view(m));
    let ghost ids = menu_ids@.map_values(|s: String| s@);
    let mut rows: Vec<SysRoleApiAddReq> = Vec::new();
    let mut k: usize = 0;
    proof {
        assert(rows@.map_values(|r: SysRoleApiAddReq| row_view(r)) =~= spec_permissions(role_id@, ids.take(0), mv));
    }
    while k < menu_ids.len()
        invariant
            k <= menu_ids@.len(),
            mv == menus@.map_values(|m: MenuResp| menu_view(m)),
            ids == menu_ids@.map_values(|s: String| s@),
            rows@.map_values(|r: SysRoleApiAddReq| row_view(r)) == spec_permissions(role_id@, ids.take(k as int), mv),
        decreases menu_ids@.len() - k,
    {
        proof {
            assert(ids.take(k + 1).drop_last() =~= ids.take(k as int));
            assert(ids.take(k + 1).last() == menu_ids@[k as int]@);
            lemma_last_menu_bounds(mv, menu_ids@[k as int]@);
        }
        match find_last_menu(menus, menu_ids[k].as_str()) {
            Some(i) => {
                let row = SysRoleApiAddReq {
                    role_id: role_id.to_owned(),
                    api: menus[i].api.clone(),
                    method: Some(menus[i].method.clone()),
                };
                let ghost before = rows@;
                rows.push(row);
                proof {
                    assert(rows@.map_values(|r: SysRoleApiAddReq| row_view(r))
                        =~= before.map_values(|r: SysRoleApiAddReq| row_view(r)).push((role_id@, mv[i as int].1, Some(mv[i as int].2))));
                }
            },
            None => {},
        }
        k = k + 1;
    }
    proof {
        assert(ids.take(menu_ids@.len() as int) =~= ids);
    }
    rows
}

/// The data scope of a new role: as given, or "3" when not given.
pub fn data_scope_or_default(data_scope: Option<String>) -> (s: String)
    ensures
        s@ == (match data_scope {
            Some(d) => d@,
            None => "3"@,
        }),
{
    match data_scope {
        Some(d) => d,
        None => "3".to_owned(),
    }
}

/// The department rows `(role_id, dept_id)` a data-scope change writes:
/// one per department, in order, when the scope is custom ("2"); none
/// otherwise, and then the role's rows are left as they are.
pub fn role_dept_rows(role_id: &str, data_scope: &str, dept_ids: &Vec<String>) -> (rows: Option<Vec<(String, String)>>)
    ensures
        data_scope@ != "2"@ ==> rows is None,
        data_scope@ == "2"@ ==> (rows matches Some(v) && v@.len() == dept_ids@.len() && forall|i: int|
            0 <= i < v@.len() ==> (#[trigger] v@[i]).0@ == role_id@ && v@[i].1@ == dept_ids@[i]@),
{
    if !str_eq(data_scope, "2") {
        return None;
    }
    let mut v: Vec<(String, String)> = Vec::new();
    let mut i: usize = 0;
    while i < dept_ids.len()
        invariant
            i <= dept_ids@.len(),
            v@.len() == i,
            forall|k: int| 0 <= k < i ==> (#[trigger] v@[k]).0@ == role_id@ && v@[k].1@ == dept_ids@[k]@,
        decreases dept_ids@.len() - i,
    {
        v.push((role_id.to_owned(), dept_ids[i].clone()));
        i = i + 1;
    }
    Some(v)
}

/// The id a role lookup asks for, or the error given when it names none.
pub fn required_role_id(req: &SysRoleSearchReq) -> (r: Result<String, String>)
    ensures
        match req.role_id {
            Some(id) => r matches Ok(x) && x@ == id@,
            None => r matches Err(e) && e@ == "id不能为空"@,
        },
{
    match &req.role_id {
        Some(id) => Ok(id.clone()),
        None => Err("id不能为空".to_owned()),
    }
}

/// The answer to a role add that went through.
pub open spec fn role_added_message() -> Seq<char> {
    "添加成功"@
}

/// The answer to a role edit that went through.
pub open spec fn role_updated_message() -> Seq<char> {
    "角色数据更新成功"@
}

/// What adding a role writes.
pub struct NewRole {
    /// The new role's id.
    pub role_id: String,
    /// Its data scope.
    pub data_scope: String,
    /// Its permission rows.
    pub api_rows: Vec<SysRoleApiAddReq>,
    /// The answer once it is written.
    pub message: String,
}

/// Decides a role add: a role whose name another role has (`name_rows`
/// found) is refused; otherwise the new role gets a fresh id, its data
/// scope (as given, or "3"), the permission rows of its menus (see
/// `spec_permissions`), and is answered with `role_added_message`.
pub fn role_add_plan(
    name_rows: u64,
    data_scope: Option<String>,
    menu_ids: &Vec<String>,
    menus: &Vec<MenuResp>,
) -> (r: Result<NewRole, String>)
    ensures
        name_rows > 0 ==> (r matches Err(e) && e@ == role_add_exists_message()),
        name_rows == 0 ==> (r matches Ok(role) && {
            &&& is_scru128_text(role.role_id@)
            &&& role.data_scope@ == (match data_scope {
                Some(d) => d@,
                None => "3"@,
            })
            &&& role.api_rows@.map_values(|x: SysRoleApiAddReq| row_view(x)) == spec_permissions(
                role.role_id@,
                menu_ids@.map_values(|s: String| s@),
                menus@.map_values(|m: MenuResp| menu_view(m)),
            )
            &&& role.message@ == role_added_message()
        }),
{
    match role_add_check(name_rows) {
        Ok(()) => {},
        Err(e) => return Err(e),
    }
    let role_id = new_id();
    let data_scope = data_scope_or_default(data_scope);
    let api_rows = get_permissions_data(role_id.as_str(), menu_ids, menus);
    Ok(NewRole { role_id, data_scope, api_rows, message: "添加成功".to_owned() })
}

/// Decides a role edit: a name or key another role has (`name_rows`,
/// `key_rows` found) is refused; otherwise the role's permission rows are
/// replaced by those of its menus (see `spec_permissions`), and the edit is
/// answered with `role_updated_message`.
pub fn role_edit_plan(
    name_rows: u64,
    key_rows: u64,
    role_id: &str,
    menu_ids: &Vec<String>,
    menus: &Vec<MenuResp>,
) -> (r: Result<(Vec<SysRoleApiAddReq>, String), String>)
    ensures
        (name_rows > 0 || key_rows > 0) ==> (r matches Err(e) && e@ == role_edit_exists_message()),
        (name_rows == 0 && key_rows == 0) ==> (r matches Ok((rows, message)) && {
            &&& rows@.map_values(|x: SysRoleApiAddReq| row_view(x)) == spec_permissions(
                role_id@,
                menu_ids@.map_values(|s: String| s@),
                menus@.map_values(|m: MenuResp| menu_view(m)),
            )
            &&& message@ == role_updated_message()
        }),
{
    match role_edit_check(name_rows, key_rows) {
        Ok(()) => {},
        Err(e) => return Err(e),
    }
    let rows = get_permissions_data(role_id, menu_ids, menus);
    Ok((rows, "角色数据更新成功".to_owned()))
}

/// Whether setting a user's roles to `role_ids` clears the user's own role
/// id: exactly when it has one and it is not among them.
pub fn clears_user_role(current_role_id: &Option<String>, role_ids: &Vec<String>) -> (b: bool)
    ensures
        b == (match current_role_id {
            Some(r) => !seq_has_text(role_ids@, r@),
            None => false,
        }),
{
    match current_role_id {
        Some(r) => !contains_text(role_ids, r.as_str()),
        None => false,
    }
}

} // verus!
