//! The answers the management services give for their writes.
use vstd::prelude::*;

use crate::text::{decimal, decimal_text};

verus! {

/// The answer to a delete that removed `rows` rows: an error with
/// `missing` when nothing was removed, otherwise how many were.
pub open spec fn spec_delete_outcome(rows: u64, missing: Seq<char>) -> Result<Seq<char>, Seq<char>> {
    if rows == 0 {
        Err(missing)
    } else {
        Ok("成功删除"@ + decimal(rows as nat) + "条数据"@)
    }
}

/// Answers a delete that removed `rows` rows.
pub fn delete_outcome(rows: u64, missing: &str) -> (r: Result<String, String>)
    ensures
        match (r, spec_delete_outcome(rows, missing@)) {
            (Ok(a), Ok(b)) => a@ == b,
            (Err(a), Err(b)) => a@ == b,
            _ => false,
        },
{
    if rows == 0 {
        Err(missing.to_owned())
    } else {
        let mut m = "成功删除".to_owned();
        let n = decimal_text(rows);
        m.append(n.as_str());
        m.append("条数据");
        Ok(m)
    }
}

/// `prefix`, then `id`, then `suffix`.
pub open spec fn spec_framed(prefix: Seq<char>, id: Seq<char>, suffix: Seq<char>) -> Seq<char> {
    prefix + id + suffix
}

/// `prefix`, then `id`, then `suffix`, as one text.
pub fn framed(prefix: &str, id: &str, suffix: &str) -> (r: String)
    ensures
        r@ == spec_framed(prefix@, id@, suffix@),
{
    let mut m = prefix.to_owned();
    m.append(id);
    m.append(suffix);
    m
}

/// The answer to a role status change.
pub fn role_status_message(role_id: &str) -> (m: String)
    ensures
        m@ == spec_framed("用户<"@, role_id@, ">状态更新成功"@),
{
    framed("用户<", role_id, ">状态更新成功")
}

/// The answer to a role data-scope change.
pub fn role_scope_message(role_id: &str) -> (m: String)
    ensures
        m@ == spec_framed("用户<"@, role_id@, ">数据更新成功"@),
{
    framed("用户<", role_id, ">数据更新成功")
}

/// The answer to adding a scheduled job.
pub fn job_added_message(job_id: &str) -> (m: String)
    ensures
        m@ == job_id@ + "添加成功"@,
{
    let mut m = job_id.to_owned();
    m.append("添加成功");
    m
}

/// The answer to changing a scheduled job.
pub fn job_changed_message(job_id: &str) -> (m: String)
    ensures
        m@ == job_id@ + "修改成功"@,
{
    let mut m = job_id.to_owned();
    m.append("修改成功");
    m
}

/// The error a job add or edit gives when another job has its name or its
/// task.
pub open spec fn job_exists_message() -> Seq<char> {
    "任务已存在"@
}

/// Refuses a job add or edit when the lookups of other jobs with its name
/// (`name_rows`) or with its task (`task_rows`) found any.
pub fn job_clash_check(name_rows: u64, task_rows: u64) -> (r: Result<(), String>)
    ensures
        r is Ok <==> (name_rows == 0 && task_rows == 0),
        r matches Err(e) ==> e@ == job_exists_message(),
{
    if name_rows > 0 || task_rows > 0 {
        Err("任务已存在".to_owned())
    } else {
        Ok(())
    }
}

/// The error a role add gives when a role has its name.
pub open spec fn role_add_exists_message() -> Seq<char> {
    "数据已存在，请检查后重试"@
}

/// Refuses a role add when the lookup of roles with its name found any.
pub fn role_add_check(name_rows: u64) -> (r: Result<(), String>)
    ensures
        r is Ok <==> name_rows == 0,
        r matches Err(e) ==> e@ == role_add_exists_message(),
{
    if name_rows > 0 {
        Err("数据已存在，请检查后重试".to_owned())
    } else {
        Ok(())
    }
}

/// The error a role edit gives when another role has its name or key.
pub open spec fn role_edit_exists_message() -> Seq<char> {
    "数据已存在"@
}

/// Refuses a role edit when the lookups of other roles matching its name
/// (`name_rows`) or its key (`key_rows`) found any.
pub fn role_edit_check(name_rows: u64, key_rows: u64) -> (r: Result<(), String>)
    ensures
        r is Ok <==> (name_rows == 0 && key_rows == 0),
        r matches Err(e) ==> e@ == role_edit_exists_message(),
{
    if name_rows > 0 || key_rows > 0 {
        Err("数据已存在".to_owned())
    } else {
        Ok(())
    }
}

} // verus!
