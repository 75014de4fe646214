use axum_admin::search::{job_log_order, day_bound, job_conds, job_log_conds, oper_log_conds, Cond, JobLogSearchReq, JobSearchReq, OperLogSearchReq};

fn describe(c: &Cond) -> String {
    match c {
        Cond::Eq { column, value } => format!("{column}={value}"),
        Cond::Contains { column, value } => format!("{column}~{value}"),
        Cond::AtLeast { column, time } => format!("{column}>={time}"),
        Cond::AtMost { column, time } => format!("{column}<={time}"),
    }
}

#[test]
fn day_bounds() {
    assert_eq!(day_bound("2023-01-02", false), Some(1_672_617_600));
    assert_eq!(day_bound("2023-01-02", true), Some(1_672_617_600 + 86_399));
    assert_eq!(day_bound("", false), None);
    assert_eq!(day_bound("2023-13-01", false), None);
}

#[test]
fn job_search() {
    let r = JobSearchReq { job_name: Some("sync".to_string()), job_group: Some(String::new()), status: Some("1".to_string()) };
    let c: Vec<String> = job_conds(&r).iter().map(describe).collect();
    assert_eq!(c, vec!["job_name~sync".to_string(), "status=1".to_string()]);
}

fn job_log_req() -> JobLogSearchReq {
    JobLogSearchReq { job_id: None, job_name: None, job_group: None, is_once: None, status: None, begin_time: None, end_time: None }
}

#[test]
fn job_log_search() {
    let mut r = job_log_req();
    r.job_id = Some("j".to_string());
    r.is_once = Some("1".to_string());
    r.begin_time = Some("2023-01-02".to_string());
    r.end_time = Some("2023-01-02".to_string());
    let c: Vec<String> = match job_log_conds(&r) {
        Ok(c) => c.iter().map(describe).collect(),
        Err(_) => panic!("readable days"),
    };
    assert_eq!(
        c,
        vec![
            "job_id=j".to_string(),
            "is_once=1".to_string(),
            "created_at>=1672617600".to_string(),
            "created_at<=1672703999".to_string()
        ]
    );
}

#[test]
fn job_log_search_with_an_empty_day_fails() {
    let mut r = job_log_req();
    r.begin_time = Some(String::new());
    assert!(job_log_conds(&r).is_err());
}

#[test]
fn oper_log_search_skips_empty_days() {
    let r = OperLogSearchReq {
        title: Some("t".to_string()),
        oper_name: Some("adm".to_string()),
        operator_type: None,
        status: Some(String::new()),
        begin_time: Some(String::new()),
        end_time: Some("2023-01-02".to_string()),
    };
    let c: Vec<String> = match oper_log_conds(&r) {
        Ok(c) => c.iter().map(describe).collect(),
        Err(_) => panic!("readable days"),
    };
    assert_eq!(c, vec!["title=t".to_string(), "oper_name~adm".to_string(), "oper_time<=1672703999".to_string()]);
    let mut bad = r;
    bad.begin_time = Some("yesterday".to_string());
    assert!(oper_log_conds(&bad).is_err());
}

#[test]
fn job_log_sort_order() {
    assert_eq!(job_log_order(), vec!["lot_id".to_string(), "lot_order".to_string(), "created_at".to_string()]);
}
