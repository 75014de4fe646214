//! Scheduled jobs: what a status change does to the running job, checking
//! a cron expression, and the built-in test tasks.
use vstd::prelude::*;


use crate::cron::{cron_chain, cron_parses, cron_runs, has_zero_step, strictly_increasing, zero_step};
use crate::cron::cron_next;
use crate::ids::{is_scru128_text, new_id};
use crate::outcome::{delete_outcome, job_clash_check, job_exists_message, spec_delete_outcome};
use crate::text::str_eq;

verus! {

/// What to do with a job's running task.
pub enum JobAction {
    /// Start the job's task.
    Start,
    /// Stop the job's task.
    Stop,
    /// Restart the job's task with its new settings.
    Update,
    /// Leave it as it is.
    Keep,
}

/// The status of a job: as given, or "1" (enabled) when not given.
pub fn status_or_default(status: Option<String>) -> (s: String)
    ensures
        s@ == (match status {
            Some(x) => x@,
            None => "1"@,
        }),
{
    match status {
        Some(x) => x,
        None => "1".to_owned(),
    }
}

/// Whether a newly added job with this status starts at once: when it is
/// enabled ("1").
pub fn starts_when_added(status: &str) -> (b: bool)
    ensures
        b == (status@ == "1"@),
{
    str_eq(status, "1")
}

/// What editing a job from status `old_status` to `new_status` does: a
/// job enabled from "0" starts, one disabled from "1" stops, one kept at
/// "1" is restarted with its new settings; anything else is left alone.
pub open spec fn spec_edit_action(old_status: Seq<char>, new_status: Seq<char>) -> JobAction {
    if old_status == "0"@ && new_status == "1"@ {
        JobAction::Start
    } else if old_status == "1"@ && new_status == "0"@ {
        JobAction::Stop
    } else if old_status == "1"@ && new_status == "1"@ {
        JobAction::Update
    } else {
        JobAction::Keep
    }
}

/// What editing a job's status does (see `spec_edit_action`).
pub fn edit_action(old_status: &str, new_status: &str) -> (a: JobAction)
    ensures
        a == spec_edit_action(old_status@, new_status@),
{
    let old_on = str_eq(old_status, "1");
    let old_off = str_eq(old_status, "0");
    let new_on = str_eq(new_status, "1");
    let new_off = str_eq(new_status, "0");
    if old_off && new_on {
        JobAction::Start
    } else if old_on && new_off {
        JobAction::Stop
    } else if old_on && new_on {
        JobAction::Update
    } else {
        JobAction::Keep
    }
}

/// What setting a job's status does: "1" starts it, "0" stops it, any
/// other value is refused.
pub fn status_action(status: &str) -> (r: Result<JobAction, String>)
    ensures
        status@ == "1"@ ==> r matches Ok(JobAction::Start),
        status@ == "0"@ ==> r matches Ok(JobAction::Stop),
        status@ != "1"@ && status@ != "0"@ ==> (r matches Err(e) && e@ == "状态值错误"@),
{
    proof {
        reveal_strlit("1");
        reveal_strlit("0");
        assert("1"@[0] != "0"@[0]);
        assert("1"@ != "0"@);
    }
    if str_eq(status, "1") {
        Ok(JobAction::Start)
    } else if str_eq(status, "0") {
        Ok(JobAction::Stop)
    } else {
        Err("状态值错误".to_owned())
    }
}

/// The test task without parameters.
pub fn test_a() -> (r: Result<String, String>)
    ensures
        r matches Ok(m) && m@ == "test_a函数运行成功"@,
{
    Ok("test_a函数运行成功".to_owned())
}

/// The error a task gives when it needs parameters and got none.
pub open spec fn missing_params() -> Seq<char> {
    "参数为空, 请检查参数"@
}

/// The test task with a plain parameter: it fails without one.
pub fn test_b(params: Option<String>) -> (r: Result<String, String>)
    ensures
        params is None ==> (r matches Err(e) && e@ == missing_params()),
        params is Some ==> (r matches Ok(m) && m@ == "test_b函数运行成功"@),
{
    match params {
        None => Err("参数为空, 请检查参数".to_owned()),
        Some(_) => Ok("test_b函数运行成功".to_owned()),
    }
}


/// Which job logs a clean removes.
pub enum LogClean {
    /// Every job log.
    All,
    /// The logs of this job.
    OfJob(String),
}

/// Which job logs a clean asked for with `job_id` removes: all of them for
/// an empty id, else those of that job.
pub fn job_log_clean_scope(job_id: String) -> (c: LogClean)
    ensures
        job_id@.len() == 0 ==> c is All,
        job_id@.len() > 0 ==> (c matches LogClean::OfJob(id) && id@ == job_id@),
{
    if job_id.as_str().is_empty() {
        LogClean::All
    } else {
        LogClean::OfJob(job_id)
    }
}

/// The answer to a clean of all job logs.
pub open spec fn cleared_message() -> Seq<char> {
    "定时任务日志清空成功"@
}

/// The error a clean of one job's logs gives when it removed none.
pub open spec fn no_logs_message() -> Seq<char> {
    "你要删除的日志不存在"@
}

/// The answer to a clean of `scope` that removed `rows` rows: a clean of
/// all logs is answered with `cleared_message`; a clean of one job's logs
/// as a delete of `rows` rows (an error with `no_logs_message` when there
/// were none).
pub fn clean_outcome(scope: &LogClean, rows: u64) -> (r: Result<String, String>)
    ensures
        scope is All ==> (r matches Ok(m) && m@ == cleared_message()),
        scope is OfJob ==> match (r, spec_delete_outcome(rows, no_logs_message())) {
            (Ok(a), Ok(b)) => a@ == b,
            (Err(a), Err(b)) => a@ == b,
            _ => false,
        },
{
    match scope {
        LogClean::All => Ok("定时任务日志清空成功".to_owned()),
        LogClean::OfJob(_) => delete_outcome(rows, "你要删除的日志不存在"),
    }
}

/// The answer to a cron expression check: whether it is valid, the
/// wall-clock time the listing starts from (0 for an invalid expression),
/// and, if it is valid, its next run times (wall-clock seconds).
pub struct ValidateRes {
    pub validate: bool,
    pub from: i64,
    pub next_ten: Option<Vec<i64>>,
}

/// How many upcoming run times a check lists.
pub open spec fn listed_runs() -> nat {
    12
}

/// Whether a cron expression is valid: it has no step of zero and it
/// parses.
pub open spec fn cron_valid(expression: Seq<char>) -> bool {
    !has_zero_step(expression) && cron_parses(expression)
}

/// An expression in which every `/` is directly followed by a digit from 1
/// to 9 (such as `0 0/5 * * * *`) is valid exactly when it parses.
pub proof fn law_valid_when_steps_nonzero(expression: Seq<char>)
    requires
        forall|i: int|
            0 <= i < expression.len() && #[trigger] expression[i] == '/' ==> i + 1 < expression.len() && '1'
                <= expression[i + 1] && expression[i + 1] <= '9',
    ensures
        cron_valid(expression) == cron_parses(expression),
{
    crate::cron::law_nonzero_steps(expression);
}

/// The answer for an expression whose listing is `runs`: its start and run
/// times, or `None` for an invalid expression.
pub fn validation_of(runs: Option<(i64, Vec<i64>)>) -> (r: ValidateRes)
    ensures
        r.validate == runs is Some,
        match runs {
            Some((from, times)) => r.from == from && r.next_ten == Some(times),
            None => r.from == 0 && r.next_ten is None,
        },
{
    match runs {
        Some((from, times)) => ValidateRes { validate: true, from, next_ten: Some(times) },
        None => ValidateRes { validate: false, from: 0, next_ten: None },
    }
}

/// Checks a cron expression: a valid one comes with the time of the check
/// and the schedule's next 12 run times after it (fewer if it stops
/// firing), in increasing order; any other is invalid and comes with none.
pub fn validate_cron_str(cron_str: String) -> (r: ValidateRes)
    ensures
        r.validate == cron_valid(cron_str@),
        r.next_ten is Some <==> r.validate,
        r.next_ten matches Some(v) ==> {
            &&& v@ == cron_chain(cron_str@, r.from, listed_runs())
            &&& forall|i: int| 0 <= i < v@.len() ==> r.from < #[trigger] v@[i]
            &&& strictly_increasing(v@)
        },
{
    let runs = if zero_step(cron_str.as_str()) {
        None
    } else {
        cron_runs(cron_str.as_str(), 12)
    };
    validation_of(runs)
}

/// The error job add and edit give for an invalid cron expression.
pub open spec fn cron_error() -> Seq<char> {
    "cron 表达式解析错误"@
}

/// Checks the cron expression of a job being added or edited: it passes
/// exactly when it is valid (see `cron_valid`); otherwise the job is
/// refused with `cron_error`.
pub fn job_cron_check(cron_expression: &str) -> (r: Result<(), String>)
    ensures
        r is Ok <==> cron_valid(cron_expression@),
        r matches Err(e) ==> e@ == cron_error(),
{
    if zero_step(cron_expression) {
        return Err("cron 表达式解析错误".to_owned());
    }
    match cron_runs(cron_expression, 0) {
        Some(_) => Ok(()),
        None => Err("cron 表达式解析错误".to_owned()),
    }
}

/// The next run time of a valid cron expression, read after the clock: the
/// wall-clock time the search started from, and the schedule's first
/// firing after it (`None` when it never fires again).
fn next_run(cron_expression: &str) -> (r: Option<(i64, Option<i64>)>)
    ensures
        r is Some <==> cron_valid(cron_expression@),
        r matches Some((from, next)) ==> next == cron_next(cron_expression@, from),
{
    if zero_step(cron_expression) {
        return None;
    }
    match cron_runs(cron_expression, 1) {
        Some((from, times)) => {
            proof {
                let e = cron_expression@;
                assert(cron_chain(e, from, 1) == match cron_next(e, from) {
                    Some(t) => seq![t] + cron_chain(e, t, 0),
                    None => Seq::<i64>::empty(),
                });
                if let Some(t) = cron_next(e, from) {
                    assert(cron_chain(e, t, 0) == Seq::<i64>::empty());
                    assert(times@ =~= seq![t]);
                }
            }
            if times.len() > 0 {
                Some((from, Some(times[0])))
            } else {
                Some((from, None))
            }
        },
        None => None,
    }
}

/// The error given for a job that is not found.
pub open spec fn job_missing_message() -> Seq<char> {
    "没有找到数据"@
}

/// The status a job is saved with: as given, or "1" when not given.
pub open spec fn spec_status_or_default(status: Option<String>) -> Seq<char> {
    match status {
        Some(x) => x@,
        None => "1"@,
    }
}

/// What adding a job writes and does.
pub struct NewJob {
    /// The new job's id.
    pub job_id: String,
    /// How many times it has run: none yet.
    pub run_count: i64,
    /// The status it is saved with.
    pub status: String,
    /// Who created it.
    pub create_by: String,
    /// The wall-clock time its next run was looked up from.
    pub from: i64,
    /// Its next run time, `None` when the schedule never fires again.
    pub next_time: Option<i64>,
    /// Whether its task is started now.
    pub start_task: bool,
}

/// Decides a job add, in the order the checks are made: a job whose name
/// or task another job has (`name_rows`, `task_rows` found) is refused with
/// `job_exists_message`; then an invalid cron expression with `cron_error`;
/// otherwise the new job gets a fresh id, no runs, its status (as given, or
/// "1"), its creator, the schedule's next firing after now, and its task is
/// started exactly when its status is "1".
pub fn job_add_plan(
    name_rows: u64,
    task_rows: u64,
    cron_expression: &str,
    status: Option<String>,
    user_id: String,
) -> (r: Result<NewJob, String>)
    ensures
        (name_rows > 0 || task_rows > 0) ==> (r matches Err(e) && e@ == job_exists_message()),
        (name_rows == 0 && task_rows == 0 && !cron_valid(cron_expression@)) ==> (r matches Err(e) && e@
            == cron_error()),
        (name_rows == 0 && task_rows == 0 && cron_valid(cron_expression@)) ==> (r matches Ok(job) && {
            &&& is_scru128_text(job.job_id@)
            &&& job.run_count == 0
            &&& job.status@ == spec_status_or_default(status)
            &&& job.create_by@ == user_id@
            &&& job.next_time == cron_next(cron_expression@, job.from)
            &&& job.start_task == (job.status@ == "1"@)
        }),
{
    match job_clash_check(name_rows, task_rows) {
        Ok(()) => {},
        Err(e) => return Err(e),
    }
    let job_id = new_id();
    let (from, next_time) = match next_run(cron_expression) {
        Some(x) => x,
        None => return Err("cron 表达式解析错误".to_owned()),
    };
    let status = status_or_default(status);
    let start_task = starts_when_added(status.as_str());
    Ok(NewJob { job_id, run_count: 0, status, create_by: user_id, from, next_time, start_task })
}

/// What editing a job writes and does.
pub struct JobEdit {
    /// The status it is saved with.
    pub status: String,
    /// The wall-clock time its next run was looked up from.
    pub from: i64,
    /// Its next run time, `None` when the schedule never fires again.
    pub next_time: Option<i64>,
    /// What happens to its running task.
    pub action: JobAction,
}

/// Decides a job edit, in the order the checks are made: a name or task
/// another job has is refused with `job_exists_message`; then a job that is
/// not found (`old_status` is `None`) with `job_missing_message`; then an
/// invalid cron expression with `cron_error`; otherwise the job gets its
/// status (as given, or "1") and the schedule's next firing after now, and
/// its task changes as `spec_edit_action` says from its old status.
pub fn job_edit_plan(
    name_rows: u64,
    task_rows: u64,
    old_status: Option<String>,
    cron_expression: &str,
    status: Option<String>,
) -> (r: Result<JobEdit, String>)
    ensures
        (name_rows > 0 || task_rows > 0) ==> (r matches Err(e) && e@ == job_exists_message()),
        (name_rows == 0 && task_rows == 0 && old_status is None) ==> (r matches Err(e) && e@
            == job_missing_message()),
        (name_rows == 0 && task_rows == 0 && old_status is Some && !cron_valid(cron_expression@)) ==> (
        r matches Err(e) && e@ == cron_error()),
        (name_rows == 0 && task_rows == 0 && old_status is Some && cron_valid(cron_expression@)) ==> (
        r matches Ok(edit) && {
            &&& edit.status@ == spec_status_or_default(status)
            &&& edit.next_time == cron_next(cron_expression@, edit.from)
            &&& edit.action == spec_edit_action(old_status->0@, edit.status@)
        }),
{
    match job_clash_check(name_rows, task_rows) {
        Ok(()) => {},
        Err(e) => return Err(e),
    }
    let old = match old_status {
        Some(s) => s,
        None => return Err("没有找到数据".to_owned()),
    };
    let (from, next_time) = match next_run(cron_expression) {
        Some(x) => x,
        None => return Err("cron 表达式解析错误".to_owned()),
    };
    let status = status_or_default(status);
    let action = edit_action(old.as_str(), status.as_str());
    Ok(JobEdit { status, from, next_time, action })
}

/// Decides a job status change: a job that is not found is refused with
/// `job_missing_message`; otherwise as `status_action` says.
pub fn set_status_outcome(found: bool, status: &str) -> (r: Result<JobAction, String>)
    ensures
        !found ==> (r matches Err(e) && e@ == job_missing_message()),
        found && status@ == "1"@ ==> r matches Ok(JobAction::Start),
        found && status@ == "0"@ ==> r matches Ok(JobAction::Stop),
        found && status@ != "1"@ && status@ != "0"@ ==> (r matches Err(e) && e@ == "状态值错误"@),
{
    if !found {
        return Err("没有找到数据".to_owned());
    }
    status_action(status)
}

} // verus!
