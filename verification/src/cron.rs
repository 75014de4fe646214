//! Cron expressions: the zero steps the parser cannot take, and the run
//! times of a schedule.
use std::str::FromStr;
use vstd::prelude::*;

use delay_timer::prelude::cron_clock::Schedule;

use crate::text::to_chars;

verus! {

/// The white space the cron parser skips around a number.
pub open spec fn is_cron_space(c: char) -> bool {
    c == ' ' || c == '\t' || c == '\r' || c == '\n'
}

/// An ASCII digit.
pub open spec fn is_digit(c: char) -> bool {
    '0' <= c && c <= '9'
}

/// Whether the `/` at `i` is followed, after white space up to `j`, by the
/// number written `s[j..k]`, made of zeros only: a step of zero.
pub open spec fn zero_step_at(s: Seq<char>, i: int, j: int, k: int) -> bool {
    &&& 0 <= i < j < k <= s.len()
    &&& s[i] == '/'
    &&& forall|m: int| i < m < j ==> is_cron_space(#[trigger] s[m])
    &&& forall|m: int| j <= m < k ==> #[trigger] s[m] == '0'
    &&& (k == s.len() || !is_digit(s[k]))
}

/// Whether a step anywhere in `s` is zero, such as in `*/0`. The parser
/// cannot step by zero: it panics on such a step.
pub open spec fn has_zero_step(s: Seq<char>) -> bool {
    exists|i: int, j: int, k: int| zero_step_at(s, i, j, k)
}

/// A zero step is a `/` followed, after blanks, by a number written with
/// zeros only and not followed by another digit: whatever `has_zero_step`
/// finds has that shape.
pub proof fn law_zero_step_is_a_written_zero(s: Seq<char>)
    requires
        has_zero_step(s),
    ensures
        exists|i: int, j: int, k: int|
            #![trigger zero_step_at(s, i, j, k)]
            {
                &&& 0 <= i < j < k <= s.len()
                &&& s[i] == '/'
                &&& forall|m: int| i < m < j ==> (#[trigger] s[m] == ' ' || s[m] == '\t' || s[m] == '\r' || s[m] == '\n')
                &&& forall|m: int| j <= m < k ==> #[trigger] s[m] == '0'
                &&& (k == s.len() || !('0' <= s[k] && s[k] <= '9'))
            },
{
    let (i, j, k) = choose|i: int, j: int, k: int| zero_step_at(s, i, j, k);
    assert(zero_step_at(s, i, j, k));
    assert forall|m: int| i < m < j implies (#[trigger] s[m] == ' ' || s[m] == '\t' || s[m] == '\r' || s[m] == '\n') by {
        assert(is_cron_space(s[m]));
    }
}

/// A text in which every `/` is directly followed by a digit from 1 to 9
/// (such as `0 0/5 * * * *`) has no zero step.
pub proof fn law_nonzero_steps(s: Seq<char>)
    requires
        forall|i: int| 0 <= i < s.len() && #[trigger] s[i] == '/' ==> i + 1 < s.len() && '1' <= s[i + 1] && s[i + 1] <= '9',
    ensures
        !has_zero_step(s),
{
    assert forall|i: int, j: int, k: int| !zero_step_at(s, i, j, k) by {
        if zero_step_at(s, i, j, k) {
            assert(s[i] == '/');
            assert('1' <= s[i + 1] && s[i + 1] <= '9');
            if j == i + 1 {
                assert(s[j] == '0');
            } else {
                assert(is_cron_space(s[i + 1]));
            }
        }
    }
}

/// Whether the `/` at `i` starts a step of zero.
fn zero_step_from(s: &Vec<char>, i: usize) -> (b: bool)
    requires
        i < s@.len(),
        s@[i as int] == '/',
    ensures
        b <==> exists|j: int, k: int| zero_step_at(s@, i as int, j, k),
{
    let n = s.len();
    let mut j = i + 1;
    while j < n && (s[j] == ' ' || s[j] == '\t' || s[j] == '\r' || s[j] == '\n')
        invariant
            i < j <= n,
            n == s@.len(),
            forall|m: int| i < m < j ==> is_cron_space(#[trigger] s@[m]),
        decreases n - j,
    {
        j = j + 1;
    }
    let mut k = j;
    while k < n && s[k] == '0'
        invariant
            j <= k <= n,
            n == s@.len(),
            forall|m: int| j <= m < k ==> #[trigger] s@[m] == '0',
        decreases n - k,
    {
        k = k + 1;
    }
    let b = k > j && (k == n || !('0' <= s[k] && s[k] <= '9'));
    proof {
        if b {
            assert(zero_step_at(s@, i as int, j as int, k as int));
        } else {
            assert forall|j2: int, k2: int| !zero_step_at(s@, i as int, j2, k2) by {
                if zero_step_at(s@, i as int, j2, k2) {
                    if j2 < j {
                        assert(is_cron_space(s@[j2]));
                        assert(s@[j2] == '0');
                    } else if j2 > j {
                        assert(is_cron_space(s@[j as int]));
                        assert(j < n);
                    }
                    assert(j2 == j);
                    if k2 < k {
                        assert(s@[k2] == '0');
                    } else if k2 > k {
                        assert(s@[k as int] == '0');
                    }
                    assert(k2 == k);
                }
            }
        }
    }
    b
}

/// Whether a step anywhere in `expression` is zero (see `has_zero_step`).
pub fn zero_step(expression: &str) -> (b: bool)
    ensures
        b == has_zero_step(expression@),
{
    let s = to_chars(expression);
    let mut i: usize = 0;
    while i < s.len()
        invariant
            i <= s@.len(),
            s@ == expression@,
            forall|i2: int, j: int, k: int| 0 <= i2 < i ==> !zero_step_at(s@, i2, j, k),
        decreases s@.len() - i,
    {
        if s[i] == '/' && zero_step_from(&s, i) {
            return true;
        }
        i = i + 1;
    }
    false
}

/// Whether `cron_clock` parses `expression` as a cron schedule.
pub uninterp spec fn cron_parses(expression: Seq<char>) -> bool;

/// The first time the schedule written `expression` fires after the
/// wall-clock time `after`, both in whole seconds of wall-clock time in a
/// fixed offset; `None` when it never fires again.
pub uninterp spec fn cron_next(expression: Seq<char>, after: i64) -> Option<i64>;

/// The next `n` times the schedule written `expression` fires after `from`,
/// each the next firing after the one before; fewer when it stops firing.
pub open spec fn cron_chain(expression: Seq<char>, from: i64, n: nat) -> Seq<i64>
    decreases n,
{
    if n == 0 {
        Seq::empty()
    } else {
        match cron_next(expression, from) {
            Some(t) => seq![t] + cron_chain(expression, t, (n - 1) as nat),
            None => Seq::empty(),
        }
    }
}

/// Whether each time comes after the one before it.
pub open spec fn strictly_increasing(times: Seq<i64>) -> bool {
    forall|i: int, j: int| 0 <= i < j < times.len() ==> times[i] < times[j]
}

/// Calls `cron_clock::Schedule::from_str` on `expression`; when it parses,
/// reads the clock with `chrono::Local::now()`, fixes the local offset in
/// force at that moment, and calls `Schedule::after` from that moment in
/// that fixed offset, taking at most `count` of the times it yields. The
/// starting moment and each time are given as wall-clock time in whole
/// seconds.
///
/// Whether the text parses depends on the text alone (`cron_parses`); the
/// parser panics on a step of zero, which `requires` leaves out. The
/// schedule finds each time field by field from a second after the previous
/// one, from the wall-clock fields alone, so the times are the chain of
/// `cron_next` from the start, each after the one before and after the
/// start. In a fixed offset every calendar time exists exactly once, so the
/// date lookup inside cannot fail (in the `Local` zone it panics on a day
/// whose local midnight is missing or doubled). The start depends on the
/// clock; `chrono` panics if the system clock reads before 1970.
#[verifier::external_body]
pub(crate) fn cron_runs(expression: &str, count: usize) -> (r: Option<(i64, Vec<i64>)>)
    requires
        !has_zero_step(expression@),
    ensures
        r is Some <==> cron_parses(expression@),
        r matches Some((start, times)) ==> {
            &&& times@ == cron_chain(expression@, start, count as nat)
            &&& count > 0 ==> cron_next(expression@, start) == (if times@.len() > 0 {
                Some(times@[0])
            } else {
                None::<i64>
            })
            &&& forall|i: int| 0 <= i < times@.len() ==> start < #[trigger] times@[i]
            &&& strictly_increasing(times@)
        },
{
    let schedule = match Schedule::from_str(expression) {
        Ok(s) => s,
        Err(_) => return None,
    };
    let start = chrono::Local::now().fixed_offset();
    let times = schedule.after(&start).take(count).map(|t| t.naive_local().and_utc().timestamp()).collect();
    Some((start.naive_local().and_utc().timestamp(), times))
}

} // verus!
