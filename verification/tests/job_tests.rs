use axum_admin::job::{
    edit_action, job_log_clean_scope, starts_when_added, status_action, status_or_default, test_a, test_b, validate_cron_str, validation_of, job_add_plan, job_edit_plan, set_status_outcome, job_cron_check, clean_outcome, JobAction, LogClean,
};
use axum_admin::cron::zero_step;
use axum_admin::outcome::{delete_outcome, job_clash_check, role_add_check, role_edit_check, job_added_message, job_changed_message, role_scope_message, role_status_message};

#[test]
fn edit_transitions() {
    assert!(matches!(edit_action("0", "1"), JobAction::Start));
    assert!(matches!(edit_action("1", "0"), JobAction::Stop));
    assert!(matches!(edit_action("1", "1"), JobAction::Update));
    assert!(matches!(edit_action("0", "0"), JobAction::Keep));
    assert!(matches!(edit_action("2", "1"), JobAction::Keep));
}

#[test]
fn status_changes() {
    assert!(matches!(status_action("1"), Ok(JobAction::Start)));
    assert!(matches!(status_action("0"), Ok(JobAction::Stop)));
    assert_eq!(status_action("x").err(), Some("状态值错误".to_string()));
    assert_eq!(status_or_default(None), "1");
    assert_eq!(status_or_default(Some("0".to_string())), "0");
    assert!(starts_when_added("1"));
    assert!(!starts_when_added("0"));
}

#[test]
fn test_tasks() {
    assert_eq!(test_a(), Ok("test_a函数运行成功".to_string()));
    assert_eq!(test_b(None), Err("参数为空, 请检查参数".to_string()));
    assert_eq!(test_b(Some("x".to_string())), Ok("test_b函数运行成功".to_string()));
}

#[test]
fn delete_answers() {
    assert_eq!(delete_outcome(0, "删除失败,数据不存在"), Err("删除失败,数据不存在".to_string()));
    assert_eq!(delete_outcome(3, "x"), Ok("成功删除3条数据".to_string()));
    assert_eq!(delete_outcome(12, "x"), Ok("成功删除12条数据".to_string()));
}

#[test]
fn messages() {
    assert_eq!(role_status_message("r1"), "用户<r1>状态更新成功");
    assert_eq!(role_scope_message("r1"), "用户<r1>数据更新成功");
    assert_eq!(job_added_message("J"), "J添加成功");
    assert_eq!(job_changed_message("J"), "J修改成功");
}

#[test]
fn clean_scopes() {
    assert!(matches!(job_log_clean_scope(String::new()), LogClean::All));
    assert!(matches!(job_log_clean_scope("j1".to_string()), LogClean::OfJob(x) if x == "j1"));
}

#[test]
fn cron_expressions() {
    let ok = validate_cron_str("0 0 12 * * *".to_string());
    assert!(ok.validate);
    let times = ok.next_ten.unwrap();
    assert_eq!(times.len(), 12);
    assert!(times.iter().all(|t| *t > ok.from));
    assert!(times.windows(2).all(|w| w[0] < w[1]));
    assert!(times.iter().all(|t| t.rem_euclid(86_400) == 12 * 3600));
    let bad = validate_cron_str("not a schedule".to_string());
    assert!(!bad.validate);
    assert!(bad.next_ten.is_none());
    assert_eq!(bad.from, 0);
    let zero = validate_cron_str("*/0 * * * * *".to_string());
    assert!(!zero.validate);
    assert!(zero.next_ten.is_none());
    let given = validation_of(Some((5, vec![6, 7])));
    assert!(given.validate);
    assert_eq!(given.from, 5);
    assert_eq!(given.next_ten, Some(vec![6, 7]));
    let none = validation_of(None);
    assert!(!none.validate);
    assert!(none.next_ten.is_none());
}

#[test]
fn job_cron_expressions_are_checked() {
    assert_eq!(job_cron_check("0 0 12 * * *"), Ok(()));
    assert_eq!(job_cron_check("every day"), Err("cron 表达式解析错误".to_string()));
    assert_eq!(job_cron_check("*/0 * * * * *"), Err("cron 表达式解析错误".to_string()));
    assert_eq!(job_cron_check("0 */ 00 * * * *"), Err("cron 表达式解析错误".to_string()));
    assert_eq!(job_cron_check("*/10 * * * * *"), Ok(()));
}

#[test]
fn clean_answers() {
    assert_eq!(clean_outcome(&LogClean::All, 0), Ok("定时任务日志清空成功".to_string()));
    assert_eq!(clean_outcome(&LogClean::OfJob("j".to_string()), 3), Ok("成功删除3条数据".to_string()));
    assert_eq!(clean_outcome(&LogClean::OfJob("j".to_string()), 0), Err("你要删除的日志不存在".to_string()));
}

#[test]
fn zero_steps_are_found() {
    assert!(zero_step("*/0 * * * * *"));
    assert!(zero_step("0 5/000 * * * *"));
    assert!(zero_step("0 1/ 0 * * * *"));
    assert!(zero_step("0 0 0 1 1 ? 2020/0"));
    assert!(!zero_step("*/10 * * * * *"));
    assert!(!zero_step("0 */05 * * * *"));
    assert!(!zero_step("0 0 12 * * *"));
    assert!(!zero_step("/"));
}

#[test]
fn clash_checks() {
    assert_eq!(job_clash_check(0, 0), Ok(()));
    assert_eq!(job_clash_check(1, 0), Err("任务已存在".to_string()));
    assert_eq!(job_clash_check(0, 2), Err("任务已存在".to_string()));
    assert_eq!(role_add_check(0), Ok(()));
    assert_eq!(role_add_check(3), Err("数据已存在，请检查后重试".to_string()));
    assert_eq!(role_edit_check(0, 0), Ok(()));
    assert_eq!(role_edit_check(0, 1), Err("数据已存在".to_string()));
}

#[test]
fn job_add_decisions() {
    assert_eq!(job_add_plan(1, 0, "bad", None, "u".to_string()).err(), Some("任务已存在".to_string()));
    assert_eq!(job_add_plan(0, 0, "bad", None, "u".to_string()).err(), Some("cron 表达式解析错误".to_string()));
    let job = job_add_plan(0, 0, "0 0 12 * * *", None, "u".to_string()).unwrap();
    assert_eq!(job.job_id.len(), 25);
    assert_eq!(job.run_count, 0);
    assert_eq!(job.status, "1");
    assert_eq!(job.create_by, "u");
    assert!(job.start_task);
    let next = job.next_time.unwrap();
    assert!(next > job.from);
    assert_eq!(next.rem_euclid(86_400), 12 * 3600);
    let off = job_add_plan(0, 0, "0 0 12 * * *", Some("0".to_string()), "u".to_string()).unwrap();
    assert!(!off.start_task);
}

#[test]
fn job_edit_decisions() {
    assert_eq!(job_edit_plan(0, 1, Some("1".to_string()), "0 0 12 * * *", None).err(), Some("任务已存在".to_string()));
    assert_eq!(job_edit_plan(0, 0, None, "0 0 12 * * *", None).err(), Some("没有找到数据".to_string()));
    assert_eq!(job_edit_plan(0, 0, Some("1".to_string()), "*/0 * * * * *", None).err(), Some("cron 表达式解析错误".to_string()));
    let edit = job_edit_plan(0, 0, Some("0".to_string()), "0 0 12 * * *", None).unwrap();
    assert_eq!(edit.status, "1");
    assert!(matches!(edit.action, JobAction::Start));
    assert!(edit.next_time.unwrap() > edit.from);
    assert_eq!(set_status_outcome(false, "1").err(), Some("没有找到数据".to_string()));
    assert!(matches!(set_status_outcome(true, "0"), Ok(JobAction::Stop)));
    assert_eq!(set_status_outcome(true, "2").err(), Some("状态值错误".to_string()));
}
