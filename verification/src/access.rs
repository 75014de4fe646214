//! Who may call which api, and which routes and permissions a user sees.
use vstd::prelude::*;

use crate::config::System;
use crate::text::seq_has_text;

verus! {

/// Whether a request goes through.
pub enum Access {
    Allow,
    Deny,
}

/// Whether a request to an api goes through: a super user's always does;
/// a request to an api the api table does not list does too; otherwise it
/// does exactly when the user's role may call the api with that method.
pub open spec fn spec_access(is_super: bool, listed: bool, permitted: bool) -> Access {
    if is_super || !listed || permitted {
        Access::Allow
    } else {
        Access::Deny
    }
}

/// A super user is always let through, whatever the api table says.
pub proof fn law_super_user_allowed(listed: bool, permitted: bool)
    ensures
        spec_access(true, listed, permitted) == Access::Allow,
{
}

/// An api the api table does not list is open to every user.
pub proof fn law_unlisted_allowed(is_super: bool, permitted: bool)
    ensures
        spec_access(is_super, false, permitted) == Access::Allow,
{
}

/// For an ordinary user, a listed api goes through exactly when the user's
/// role may call it.
pub proof fn law_listed_needs_permission(permitted: bool)
    ensures
        (spec_access(false, true, permitted) == Access::Allow) == permitted,
        (spec_access(false, true, permitted) == Access::Deny) == !permitted,
{
}

/// Decides whether a request goes through (see `spec_access`). `permitted`
/// is only looked at for a listed api and a user who is not a super user.
pub fn access(is_super: bool, listed: bool, permitted: bool) -> (a: Access)
    ensures
        a == spec_access(is_super, listed, permitted),
{
    if is_super {
        Access::Allow
    } else if listed {
        if permitted {
            Access::Allow
        } else {
            Access::Deny
        }
    } else {
        Access::Allow
    }
}

/// The HTTP status and message the endpoint-style permission middleware
/// (the one wrapping an endpoint) answers a refused request with: 403 and
/// a message.
pub fn refusal() -> (r: (u16, String))
    ensures
        r.0 == 403,
        r.1@ == "你没有权限访问该页面/API"@,
{
    (403, "你没有权限访问该页面/API".to_owned())
}

/// The HTTP status the function-style permission middleware (the one the
/// api routes are layered with) answers a refused request with: 401, with
/// an empty body.
pub fn auth_fn_refusal() -> (status: u16)
    ensures
        status == 401,
{
    401
}

/// The permissions of a super user: everything.
pub open spec fn all_permissions() -> Seq<Seq<char>> {
    seq!["*:*:*"@]
}

/// The permissions of a user: everything for a super user; `None` means
/// they are those of the user's role, to be looked up.
pub fn granted_permissions(system: &System, user_id: &str) -> (p: Option<Vec<String>>)
    ensures
        seq_has_text(system.super_user@, user_id@) ==> (p matches Some(v) && v@.map_values(|s: String| s@) == all_permissions()),
        !seq_has_text(system.super_user@, user_id@) ==> p is None,
{
    if system.is_super_user(user_id) {
        let mut v: Vec<String> = Vec::new();
        v.push("*:*:*".to_owned());
        proof {
            assert(v@.map_values(|s: String| s@) =~= all_permissions());
        }
        Some(v)
    } else {
        None
    }
}

/// Which routes a user sees.
pub enum RouteSource {
    /// Every route (a super user).
    AllRoutes,
    /// The routes of the user's role.
    RoleRoutes,
}

/// Which routes a user sees: all for a super user, else those of the role.
pub fn route_source(system: &System, user_id: &str) -> (r: RouteSource)
    ensures
        seq_has_text(system.super_user@, user_id@) ==> r is AllRoutes,
        !seq_has_text(system.super_user@, user_id@) ==> r is RoleRoutes,
{
    if system.is_super_user(user_id) {
        RouteSource::AllRoutes
    } else {
        RouteSource::RoleRoutes
    }
}


/// What a user's full information is made of: the user's own record and
/// permissions, and the ids of the user's roles and departments.
pub struct UserInfo<U> {
    pub user: U,
    pub roles: Vec<String>,
    pub depts: Vec<String>,
    pub permissions: Vec<String>,
}

/// Puts a user's full information together from the three lookups that
/// make it, or gives the first lookup error, in the order roles,
/// departments, user.
pub fn user_info_outcome<U>(
    roles: Result<Vec<String>, String>,
    depts: Result<Vec<String>, String>,
    user: Result<(U, Vec<String>), String>,
) -> (r: Result<UserInfo<U>, String>)
    ensures
        match (roles, depts, user) {
            (Err(e), _, _) => r == Err::<UserInfo<U>, String>(e),
            (Ok(_), Err(e), _) => r == Err::<UserInfo<U>, String>(e),
            (Ok(_), Ok(_), Err(e)) => r == Err::<UserInfo<U>, String>(e),
            (Ok(rs), Ok(ds), Ok((u, ps))) => r == Ok::<UserInfo<U>, String>(
                UserInfo { user: u, roles: rs, depts: ds, permissions: ps },
            ),
        },
{
    let roles = match roles {
        Ok(x) => x,
        Err(e) => return Err(e),
    };
    let depts = match depts {
        Ok(x) => x,
        Err(e) => return Err(e),
    };
    let (user, permissions) = match user {
        Ok((x, y)) => (x, y),
        Err(e) => return Err(e),
    };
    Ok(UserInfo { user, roles, depts, permissions })
}

} // verus!
