//! The conditions of the list searches of scheduled jobs, job logs and
//! operation logs.
use vstd::prelude::*;

use crate::text::str_eq;

verus! {

/// One condition on a listed row.
pub enum Cond {
    /// The column equals the value.
    Eq { column: String, value: String },
    /// The column contains the value.
    Contains { column: String, value: String },
    /// The column's time is at or after the given time (seconds since the
    /// epoch, read as UTC).
    AtLeast { column: String, time: i64 },
    /// The column's time is at or before the given time.
    AtMost { column: String, time: i64 },
}

/// The abstract value of a condition.
pub enum CondView {
    Eq(Seq<char>, Seq<char>),
    Contains(Seq<char>, Seq<char>),
    AtLeast(Seq<char>, i64),
    AtMost(Seq<char>, i64),
}

impl Cond {
    /// The abstract value of this condition.
    pub open spec fn view_of(self) -> CondView {
        match self {
            Cond::Eq { column, value } => CondView::Eq(column@, value@),
            Cond::Contains { column, value } => CondView::Contains(column@, value@),
            Cond::AtLeast { column, time } => CondView::AtLeast(column@, time),
            Cond::AtMost { column, time } => CondView::AtMost(column@, time),
        }
    }
}

/// The abstract value of a list of conditions.
pub open spec fn conds_view(v: Seq<Cond>) -> Seq<CondView> {
    v.map_values(|c: Cond| c.view_of())
}

/// A field's value when it is given and not empty.
pub open spec fn nonempty(f: Option<String>) -> Option<Seq<char>> {
    match f {
        Some(s) => if s@.len() > 0 {
            Some(s@)
        } else {
            None
        },
        None => None,
    }
}

/// The equality condition a field adds, if any.
pub open spec fn eq_cond(column: Seq<char>, f: Option<String>) -> Seq<CondView> {
    match nonempty(f) {
        Some(v) => seq![CondView::Eq(column, v)],
        None => Seq::empty(),
    }
}

/// The containment condition a field adds, if any.
pub open spec fn contains_cond(column: Seq<char>, f: Option<String>) -> Seq<CondView> {
    match nonempty(f) {
        Some(v) => seq![CondView::Contains(column, v)],
        None => Seq::empty(),
    }
}

/// Appends `column = value` when the field is given and not empty.
fn push_eq(conds: &mut Vec<Cond>, column: &str, f: &Option<String>)
    ensures
        conds_view(final(conds)@) == conds_view(old(conds)@) + eq_cond(column@, *f),
{
    let ghost before = old(conds)@;
    match f {
        Some(v) => if !v.as_str().is_empty() {
            conds.push(Cond::Eq { column: column.to_owned(), value: v.clone() });
            assert(conds_view(conds@) =~= conds_view(before) + eq_cond(column@, *f));
        } else {
            assert(conds_view(conds@) =~= conds_view(before) + eq_cond(column@, *f));
        },
        None => {
            assert(conds_view(conds@) =~= conds_view(before) + eq_cond(column@, *f));
        },
    }
}

/// Appends `column contains value` when the field is given and not empty.
fn push_contains(conds: &mut Vec<Cond>, column: &str, f: &Option<String>)
    ensures
        conds_view(final(conds)@) == conds_view(old(conds)@) + contains_cond(column@, *f),
{
    let ghost before = old(conds)@;
    match f {
        Some(v) => if !v.as_str().is_empty() {
            conds.push(Cond::Contains { column: column.to_owned(), value: v.clone() });
            assert(conds_view(conds@) =~= conds_view(before) + contains_cond(column@, *f));
        } else {
            assert(conds_view(conds@) =~= conds_view(before) + contains_cond(column@, *f));
        },
        None => {
            assert(conds_view(conds@) =~= conds_view(before) + contains_cond(column@, *f));
        },
    }
}

/// The search fields of the scheduled-job list.
pub struct JobSearchReq {
    pub job_name: Option<String>,
    pub job_group: Option<String>,
    pub status: Option<String>,
}

/// The conditions of a job search: name contains, group contains, status
/// equals, each when given and not empty.
pub open spec fn spec_job_conds(req: JobSearchReq) -> Seq<CondView> {
    contains_cond("job_name"@, req.job_name) + contains_cond("job_group"@, req.job_group) + eq_cond("status"@, req.status)
}

/// The conditions of a job search (see `spec_job_conds`).
pub fn job_conds(req: &JobSearchReq) -> (c: Vec<Cond>)
    ensures
        conds_view(c@) == spec_job_conds(*req),
{
    let mut c: Vec<Cond> = Vec::new();
    assert(conds_view(c@) =~= Seq::<CondView>::empty());
    push_contains(&mut c, "job_name", &req.job_name);
    push_contains(&mut c, "job_group", &req.job_group);
    push_eq(&mut c, "status", &req.status);
    assert(Seq::<CondView>::empty() + contains_cond("job_name"@, req.job_name) =~= contains_cond("job_name"@, req.job_name));
    c
}

/// The UTC time, in seconds since the epoch, that `chrono` reads from
/// `text` with the format `fmt`, if it reads one.
pub uninterp spec fn parsed_datetime(text: Seq<char>, fmt: Seq<char>) -> Option<i64>;

/// Calls `chrono::NaiveDateTime::parse_from_str(text, fmt)` and takes the
/// result as a UTC timestamp in seconds. The result depends on the two
/// texts alone; it is named `parsed_datetime`.
#[verifier::external_body]
fn parse_datetime(text: &str, fmt: &str) -> (r: Option<i64>)
    ensures
        r == parsed_datetime(text@, fmt@),
{
    match chrono::NaiveDateTime::parse_from_str(text, fmt) {
        Ok(t) => Some(t.and_utc().timestamp()),
        Err(_) => None,
    }
}

/// The format the time bounds of a search are read with.
pub open spec fn time_format() -> Seq<char> {
    "%Y-%m-%d %H:%M:%S"@
}

/// The start of a day given as `YYYY-MM-DD`.
pub open spec fn day_start(day: Seq<char>) -> Option<i64> {
    parsed_datetime(day + " 00:00:00"@, time_format())
}

/// The last second of a day given as `YYYY-MM-DD`.
pub open spec fn day_end(day: Seq<char>) -> Option<i64> {
    parsed_datetime(day + " 23:59:59"@, time_format())
}

/// Reads the start (`end == false`) or last second (`end == true`) of a day.
pub fn day_bound(day: &str, end: bool) -> (r: Option<i64>)
    ensures
        r == (if end { day_end(day@) } else { day_start(day@) }),
{
    let mut text = day.to_owned();
    if end {
        text.append(" 23:59:59");
    } else {
        text.append(" 00:00:00");
    }
    parse_datetime(text.as_str(), "%Y-%m-%d %H:%M:%S")
}

/// A time bound of a search that could not be read.
pub struct TimeParseError;

/// The search fields of the job-log list.
pub struct JobLogSearchReq {
    pub job_id: Option<String>,
    pub job_name: Option<String>,
    pub job_group: Option<String>,
    pub is_once: Option<String>,
    pub status: Option<String>,
    pub begin_time: Option<String>,
    pub end_time: Option<String>,
}

/// The text of an optional field.
pub open spec fn opt_view(f: Option<String>) -> Option<Seq<char>> {
    match f {
        Some(s) => Some(s@),
        None => None,
    }
}

/// The bounds a given begin and end day add: an unreadable day (an empty
/// one too) is an error.
pub open spec fn time_conds(column: Seq<char>, begin: Option<Seq<char>>, end: Option<Seq<char>>) -> Option<Seq<CondView>> {
    let b: Option<Seq<CondView>> = match begin {
        Some(d) => match day_start(d) {
            Some(t) => Some(seq![CondView::AtLeast(column, t)]),
            None => None,
        },
        None => Some(Seq::empty()),
    };
    let e: Option<Seq<CondView>> = match end {
        Some(d) => match day_end(d) {
            Some(t) => Some(seq![CondView::AtMost(column, t)]),
            None => None,
        },
        None => Some(Seq::empty()),
    };
    match (b, e) {
        (Some(x), Some(y)) => Some(x + y),
        _ => None,
    }
}

/// Appends the time bounds of a search; fails when a given day cannot be
/// read.
fn push_time_bounds(conds: &mut Vec<Cond>, column: &str, begin: &Option<String>, end: &Option<String>) -> (r: Result<(), TimeParseError>)
    ensures
        match time_conds(column@, opt_view(*begin), opt_view(*end)) {
            Some(extra) => r is Ok && conds_view(final(conds)@) == conds_view(old(conds)@) + extra,
            None => r is Err,
        },
{
    let ghost before = old(conds)@;
    let ghost bview: Seq<CondView> = match begin {
        Some(d) => match day_start(d@) {
            Some(t) => seq![CondView::AtLeast(column@, t)],
            None => Seq::empty(),
        },
        None => Seq::empty(),
    };
    match begin {
        Some(d) => match day_bound(d.as_str(), false) {
            Some(t) => {
                conds.push(Cond::AtLeast { column: column.to_owned(), time: t });
            },
            None => return Err(TimeParseError),
        },
        None => {},
    }
    assert(conds_view(conds@) =~= conds_view(before) + bview);
    let ghost mid = conds@;
    match end {
        Some(d) => match day_bound(d.as_str(), true) {
            Some(t) => {
                conds.push(Cond::AtMost { column: column.to_owned(), time: t });
                assert(conds_view(conds@) =~= conds_view(mid).push(CondView::AtMost(column@, t)));
            },
            None => return Err(TimeParseError),
        },
        None => {
            assert(conds_view(conds@) =~= conds_view(mid));
        },
    }
    proof {
        let extra = time_conds(column@, opt_view(*begin), opt_view(*end)).unwrap();
        assert(conds_view(conds@) =~= conds_view(before) + extra);
    }
    Ok(())
}

/// The conditions of a job-log search (see `job_log_conds`); `None` when a
/// given day cannot be read.
pub open spec fn spec_job_log_conds(req: JobLogSearchReq) -> Option<Seq<CondView>> {
    let fields = eq_cond("job_id"@, req.job_id) + contains_cond("job_name"@, req.job_name) + eq_cond(
        "job_group"@,
        req.job_group,
    ) + eq_cond("is_once"@, req.is_once) + eq_cond("status"@, req.status);
    match time_conds("created_at"@, opt_view(req.begin_time), opt_view(req.end_time)) {
        Some(times) => Some(fields + times),
        None => None,
    }
}

/// The conditions of a job-log search: job id equals, name contains, group
/// equals, run-once flag equals, status equals (each when given and not
/// empty), then the creation time from the start of the begin day to the
/// end of the end day (each when given; an unreadable day is an error).
pub fn job_log_conds(req: &JobLogSearchReq) -> (r: Result<Vec<Cond>, TimeParseError>)
    ensures
        match spec_job_log_conds(*req) {
            Some(cs) => r matches Ok(c) && conds_view(c@) == cs,
            None => r is Err,
        },
{
    let mut c: Vec<Cond> = Vec::new();
    assert(conds_view(c@) =~= Seq::<CondView>::empty());
    push_eq(&mut c, "job_id", &req.job_id);
    push_contains(&mut c, "job_name", &req.job_name);
    push_eq(&mut c, "job_group", &req.job_group);
    push_eq(&mut c, "is_once", &req.is_once);
    push_eq(&mut c, "status", &req.status);
    assert(Seq::<CondView>::empty() + eq_cond("job_id"@, req.job_id) =~= eq_cond("job_id"@, req.job_id));
    match push_time_bounds(&mut c, "created_at", &req.begin_time, &req.end_time) {
        Ok(()) => Ok(c),
        Err(e) => Err(e),
    }
}

/// The search fields of the operation-log list.
pub struct OperLogSearchReq {
    pub title: Option<String>,
    pub oper_name: Option<String>,
    pub operator_type: Option<String>,
    pub status: Option<String>,
    pub begin_time: Option<String>,
    pub end_time: Option<String>,
}

/// A time field that is given and not empty.
fn nonempty_day(f: &Option<String>) -> (r: Option<String>)
    ensures
        match (r, nonempty(*f)) {
            (Some(a), Some(b)) => a@ == b,
            (None, None) => true,
            _ => false,
        },
{
    match f {
        Some(s) => if s.as_str().is_empty() {
            None
        } else {
            Some(s.clone())
        },
        None => None,
    }
}


/// The conditions of an operation-log search (see `oper_log_conds`);
/// `None` when a given day cannot be read.
pub open spec fn spec_oper_log_conds(req: OperLogSearchReq) -> Option<Seq<CondView>> {
    let fields = eq_cond("title"@, req.title) + contains_cond("oper_name"@, req.oper_name) + eq_cond(
        "operator_type"@,
        req.operator_type,
    ) + eq_cond("status"@, req.status);
    match time_conds("oper_time"@, nonempty(req.begin_time), nonempty(req.end_time)) {
        Some(times) => Some(fields + times),
        None => None,
    }
}

/// The conditions of an operation-log search: title equals, operator name
/// contains, operator type equals, status equals (each when given and not
/// empty), then the operation time from the start of the begin day to the
/// end of the end day (each when given and not empty; an unreadable day is
/// an error).
pub fn oper_log_conds(req: &OperLogSearchReq) -> (r: Result<Vec<Cond>, TimeParseError>)
    ensures
        match spec_oper_log_conds(*req) {
            Some(cs) => r matches Ok(c) && conds_view(c@) == cs,
            None => r is Err,
        },
{
    let mut c: Vec<Cond> = Vec::new();
    assert(conds_view(c@) =~= Seq::<CondView>::empty());
    push_eq(&mut c, "title", &req.title);
    push_contains(&mut c, "oper_name", &req.oper_name);
    push_eq(&mut c, "operator_type", &req.operator_type);
    push_eq(&mut c, "status", &req.status);
    assert(Seq::<CondView>::empty() + eq_cond("title"@, req.title) =~= eq_cond("title"@, req.title));
    let begin = nonempty_day(&req.begin_time);
    let end = nonempty_day(&req.end_time);
    match push_time_bounds(&mut c, "oper_time", &begin, &end) {
        Ok(()) => Ok(c),
        Err(e) => Err(e),
    }
}

/// The columns the job-log list is sorted by, in turn, each in descending
/// order: lot id, order within the lot, creation time.
pub open spec fn spec_job_log_order() -> Seq<Seq<char>> {
    seq!["lot_id"@, "lot_order"@, "created_at"@]
}

/// The columns the job-log list is sorted by, each descending (see
/// `spec_job_log_order`).
pub fn job_log_order() -> (cols: Vec<String>)
    ensures
        cols@.map_values(|c: String| c@) == spec_job_log_order(),
{
    let mut cols: Vec<String> = Vec::new();
    cols.push("lot_id".to_owned());
    cols.push("lot_order".to_owned());
    cols.push("created_at".to_owned());
    proof {
        assert(cols@.map_values(|c: String| c@) =~= spec_job_log_order());
    }
    cols
}

/// A field adds a condition exactly when it is given and not empty, and
/// then one condition, on its column, with its value, whatever that value
/// is.
pub proof fn law_field_conditions(column: Seq<char>, f: Option<String>)
    ensures
        (f is Some && f->0@.len() > 0) ==> eq_cond(column, f) == seq![CondView::Eq(column, f->0@)]
            && contains_cond(column, f) == seq![CondView::Contains(column, f->0@)],
        (f is None || f->0@.len() == 0) ==> eq_cond(column, f).len() == 0 && contains_cond(column, f).len() == 0,
{
}

proof fn lemma_in_sum(a: Seq<CondView>, b: Seq<CondView>, x: CondView)
    ensures
        (a.contains(x) || b.contains(x)) ==> (a + b).contains(x),
{
    if a.contains(x) {
        let i = choose|i: int| 0 <= i < a.len() && a[i] == x;
        assert((a + b)[i] == x);
    } else if b.contains(x) {
        let i = choose|i: int| 0 <= i < b.len() && b[i] == x;
        assert((a + b)[a.len() + i] == x);
    }
}

/// The condition a given, non-empty field adds.
pub open spec fn eq_of(column: Seq<char>, f: Option<String>) -> CondView {
    CondView::Eq(column, f->0@)
}

/// The containment condition a given, non-empty field adds.
pub open spec fn contains_of(column: Seq<char>, f: Option<String>) -> CondView {
    CondView::Contains(column, f->0@)
}

/// Whether a field is given and not empty.
pub open spec fn filled(f: Option<String>) -> bool {
    f is Some && f->0@.len() > 0
}

proof fn lemma_field(column: Seq<char>, f: Option<String>)
    ensures
        filled(f) ==> eq_cond(column, f).contains(eq_of(column, f)) && contains_cond(column, f).contains(
            contains_of(column, f),
        ),
{
    if filled(f) {
        assert(eq_cond(column, f)[0] == eq_of(column, f));
        assert(contains_cond(column, f)[0] == contains_of(column, f));
    }
}

/// Every field of a job search that is given and not empty is searched on:
/// the status ("0" as much as "1") by equality, the name and group by
/// containment.
pub proof fn law_job_search_fields(req: JobSearchReq)
    ensures
        filled(req.status) ==> spec_job_conds(req).contains(eq_of("status"@, req.status)),
        filled(req.job_name) ==> spec_job_conds(req).contains(contains_of("job_name"@, req.job_name)),
        filled(req.job_group) ==> spec_job_conds(req).contains(contains_of("job_group"@, req.job_group)),
        !filled(req.status) && !filled(req.job_name) && !filled(req.job_group) ==> spec_job_conds(req).len() == 0,
{
    let a = contains_cond("job_name"@, req.job_name);
    let b = contains_cond("job_group"@, req.job_group);
    let c = eq_cond("status"@, req.status);
    lemma_field("job_name"@, req.job_name);
    lemma_field("job_group"@, req.job_group);
    lemma_field("status"@, req.status);
    lemma_in_sum(a, b, contains_of("job_name"@, req.job_name));
    lemma_in_sum(a, b, contains_of("job_group"@, req.job_group));
    lemma_in_sum(a + b, c, contains_of("job_name"@, req.job_name));
    lemma_in_sum(a + b, c, contains_of("job_group"@, req.job_group));
    lemma_in_sum(a + b, c, eq_of("status"@, req.status));
}

/// Every field of a job-log search that is given and not empty is searched
/// on: job id, group, run-once flag and status (any value, "0" too) by
/// equality, the name by containment.
pub proof fn law_job_log_search_fields(req: JobLogSearchReq)
    requires
        spec_job_log_conds(req) is Some,
    ensures
        ({
            let cs = spec_job_log_conds(req)->0;
            &&& filled(req.job_id) ==> cs.contains(eq_of("job_id"@, req.job_id))
            &&& filled(req.job_name) ==> cs.contains(contains_of("job_name"@, req.job_name))
            &&& filled(req.job_group) ==> cs.contains(eq_of("job_group"@, req.job_group))
            &&& filled(req.is_once) ==> cs.contains(eq_of("is_once"@, req.is_once))
            &&& filled(req.status) ==> cs.contains(eq_of("status"@, req.status))
        }),
{
    let e1 = eq_cond("job_id"@, req.job_id);
    let c2 = contains_cond("job_name"@, req.job_name);
    let e3 = eq_cond("job_group"@, req.job_group);
    let e4 = eq_cond("is_once"@, req.is_once);
    let e5 = eq_cond("status"@, req.status);
    let times = time_conds("created_at"@, opt_view(req.begin_time), opt_view(req.end_time))->0;
    lemma_field("job_id"@, req.job_id);
    lemma_field("job_name"@, req.job_name);
    lemma_field("job_group"@, req.job_group);
    lemma_field("is_once"@, req.is_once);
    lemma_field("status"@, req.status);
    let xs = seq![
        eq_of("job_id"@, req.job_id),
        contains_of("job_name"@, req.job_name),
        eq_of("job_group"@, req.job_group),
        eq_of("is_once"@, req.is_once),
        eq_of("status"@, req.status),
    ];
    assert forall|n: int| 0 <= n < 5 implies ({
        let x = #[trigger] xs[n];
        (e1.contains(x) || c2.contains(x) || e3.contains(x) || e4.contains(x) || e5.contains(x))
            ==> (e1 + c2 + e3 + e4 + e5 + times).contains(x)
    }) by {
        let x = xs[n];
        lemma_in_sum(e1, c2, x);
        lemma_in_sum(e1 + c2, e3, x);
        lemma_in_sum(e1 + c2 + e3, e4, x);
        lemma_in_sum(e1 + c2 + e3 + e4, e5, x);
        lemma_in_sum(e1 + c2 + e3 + e4 + e5, times, x);
    }
    assert(xs[0] == eq_of("job_id"@, req.job_id));
    assert(xs[1] == contains_of("job_name"@, req.job_name));
    assert(xs[2] == eq_of("job_group"@, req.job_group));
    assert(xs[3] == eq_of("is_once"@, req.is_once));
    assert(xs[4] == eq_of("status"@, req.status));
}

/// Every field of an operation-log search that is given and not empty is
/// searched on: title, operator type and status (any value, "0" too) by
/// equality, the operator's name by containment.
pub proof fn law_oper_log_search_fields(req: OperLogSearchReq)
    requires
        spec_oper_log_conds(req) is Some,
    ensures
        ({
            let cs = spec_oper_log_conds(req)->0;
            &&& filled(req.title) ==> cs.contains(eq_of("title"@, req.title))
            &&& filled(req.oper_name) ==> cs.contains(contains_of("oper_name"@, req.oper_name))
            &&& filled(req.operator_type) ==> cs.contains(eq_of("operator_type"@, req.operator_type))
            &&& filled(req.status) ==> cs.contains(eq_of("status"@, req.status))
        }),
{
    let e1 = eq_cond("title"@, req.title);
    let c2 = contains_cond("oper_name"@, req.oper_name);
    let e3 = eq_cond("operator_type"@, req.operator_type);
    let e4 = eq_cond("status"@, req.status);
    let times = time_conds("oper_time"@, nonempty(req.begin_time), nonempty(req.end_time))->0;
    lemma_field("title"@, req.title);
    lemma_field("oper_name"@, req.oper_name);
    lemma_field("operator_type"@, req.operator_type);
    lemma_field("status"@, req.status);
    let xs = seq![
        eq_of("title"@, req.title),
        contains_of("oper_name"@, req.oper_name),
        eq_of("operator_type"@, req.operator_type),
        eq_of("status"@, req.status),
    ];
    assert forall|n: int| 0 <= n < 4 implies ({
        let x = #[trigger] xs[n];
        (e1.contains(x) || c2.contains(x) || e3.contains(x) || e4.contains(x)) ==> (e1 + c2 + e3 + e4
            + times).contains(x)
    }) by {
        let x = xs[n];
        lemma_in_sum(e1, c2, x);
        lemma_in_sum(e1 + c2, e3, x);
        lemma_in_sum(e1 + c2 + e3, e4, x);
        lemma_in_sum(e1 + c2 + e3 + e4, times, x);
    }
    assert(xs[0] == eq_of("title"@, req.title));
    assert(xs[1] == contains_of("oper_name"@, req.oper_name));
    assert(xs[2] == eq_of("operator_type"@, req.operator_type));
    assert(xs[3] == eq_of("status"@, req.status));
}

} // verus!
