//! Decision logic of the job scheduler.
//!
//! The scheduler wakes on a fixed period and fires the jobs whose time has
//! come.  The waking, spawning and output routing are I/O and live outside
//! this crate; here are the decisions: when a cron expression's next
//! occurrence or a one-shot job's instant falls within the firing window,
//! how datetime strings are read, and how waits are written for the log.

use std::str::FromStr;

use vstd::prelude::*;

use crate::text::{chars_to_string, dec_chars, push_all, str_to_chars};

verus! {

/// Seconds either side of now that count as "fire now".
pub const FIRE_WINDOW_SECS: u64 = 30;

/// The largest instant, in seconds since the epoch, that the schedule
/// queries accept: chrono's maximum datetime (the last second of year
/// 262142).  Probing a schedule from that instant or later would overflow
/// inside the date arithmetic.
pub const MAX_SCHEDULE_INSTANT_SECS: i64 = 8_210_266_876_799;

/// The next occurrence of a cron expression strictly after a given instant,
/// as seconds since the epoch; absent when the expression does not parse or
/// has no future occurrence.
pub uninterp spec fn cron_next_of(expr: Seq<char>, after_secs: i64) -> Option<i64>;

/// Relies on `cron::Schedule`: `from_str` parses the expression and
/// `after(..).next()` yields its next occurrence after the given instant.
/// Both depend only on the expression and the instant, so the result bears
/// a name.  The query begins by stepping the instant one second forward, and
/// chrono's datetime addition panics past its maximum datetime, so instants
/// at or beyond that maximum are excluded.
#[verifier::external_body]
fn cron_next_after(expr: &str, after_secs: i64) -> (r: Option<i64>)
    requires
        after_secs < MAX_SCHEDULE_INSTANT_SECS,
    ensures
        r == cron_next_of(expr@, after_secs),
{
    let after = chrono::DateTime::<chrono::Utc>::from_timestamp(after_secs, 0)?;
    let schedule = cron::Schedule::from_str(expr).ok()?;
    schedule.after(&after).next().map(|d| d.timestamp())
}

/// The seconds since the epoch an RFC 3339 datetime string names.
pub uninterp spec fn rfc3339_secs_of(s: Seq<char>) -> Option<i64>;

/// Relies on `chrono::DateTime::parse_from_rfc3339`: parses a datetime with
/// an explicit offset.  The result depends only on the string.
#[verifier::external_body]
fn parse_rfc3339_secs(s: &str) -> (r: Option<i64>)
    ensures
        r == rfc3339_secs_of(s@),
{
    chrono::DateTime::parse_from_rfc3339(s).ok().map(|d| d.timestamp())
}

/// The seconds since the epoch a UTC datetime string names.
pub uninterp spec fn utc_secs_of(s: Seq<char>) -> Option<i64>;

/// Relies on `str::parse::<chrono::DateTime<chrono::Utc>>`: parses a
/// datetime already in UTC.  The result depends only on the string.
#[verifier::external_body]
fn parse_utc_secs(s: &str) -> (r: Option<i64>)
    ensures
        r == utc_secs_of(s@),
{
    s.parse::<chrono::DateTime<chrono::Utc>>().ok().map(|d| d.timestamp())
}

/// Relies on `chrono::NaiveDateTime::parse_from_str` and the machine's local
/// time zone: parses a naive datetime (`with_space` selects the
/// space-separated form) and reads it in local time.  The zone depends on
/// the machine, so nothing exact can be promised of the result.
#[verifier::external_body]
fn parse_naive_local_secs(s: &str, with_space: bool) -> (r: Option<i64>) {
    let fmt = if with_space { "%Y-%m-%d %H:%M:%S" } else { "%Y-%m-%dT%H:%M:%S" };
    let naive = chrono::NaiveDateTime::parse_from_str(s, fmt).ok()?;
    naive.and_local_timezone(chrono::Local).single().map(|d| d.timestamp())
}

/// Parse a datetime in the accepted forms: RFC 3339 first, then a UTC
/// string, then a naive local datetime with `T` or space separator.
///
/// The first two forms are pinned exactly; the naive forms read the
/// machine's time zone, so of them only the fallback order is stated.
pub fn parse_datetime(s: &str) -> (r: Option<i64>)
    ensures
        (rfc3339_secs_of(s@) matches Some(t) ==> r == Some(t)),
        rfc3339_secs_of(s@) is None ==> (utc_secs_of(s@) matches Some(t) ==> r == Some(t)),
{
    match parse_rfc3339_secs(s) {
        Some(t) => {
            return Some(t);
        },
        None => {},
    }
    match parse_utc_secs(s) {
        Some(t) => {
            return Some(t);
        },
        None => {},
    }
    match parse_naive_local_secs(s, false) {
        Some(t) => {
            return Some(t);
        },
        None => {},
    }
    parse_naive_local_secs(s, true)
}

/// Whether a recurring job's next occurrence falls inside the firing
/// window: within thirty seconds from now, and not in the past.
pub open spec fn spec_recurring_due(next: Option<i64>, now: i64) -> bool {
    match next {
        Some(t) => now <= t && t - now <= FIRE_WINDOW_SECS as int,
        None => false,
    }
}

/// Whether a recurring job with this cron expression is due now.  The
/// instant must lie below the schedule queries' maximum.
pub fn should_run_recurring(expr: &str, now_secs: i64) -> (r: bool)
    requires
        now_secs < MAX_SCHEDULE_INSTANT_SECS,
    ensures
        r == spec_recurring_due(cron_next_of(expr@, now_secs), now_secs),
{
    match cron_next_after(expr, now_secs) {
        Some(t) => {
            let diff = t as i128 - now_secs as i128;
            0 <= diff && diff <= FIRE_WINDOW_SECS as i128
        },
        None => false,
    }
}

/// Whether a one-shot job's instant falls inside the firing window: within
/// thirty seconds either side of now.
pub open spec fn spec_once_due(target: i64, now: i64) -> bool {
    -(FIRE_WINDOW_SECS as int) <= target - now && target - now <= FIRE_WINDOW_SECS as int
}

/// Whether a one-shot job aimed at `target_secs` is due now.
pub fn should_run_once(target_secs: i64, now_secs: i64) -> (r: bool)
    ensures
        r == spec_once_due(target_secs, now_secs),
{
    let diff = target_secs as i128 - now_secs as i128;
    -(FIRE_WINDOW_SECS as i128) <= diff && diff <= FIRE_WINDOW_SECS as i128
}

/// How a wait is written for the log: bare seconds under a minute, minutes
/// and seconds under an hour, else hours and minutes.
pub open spec fn spec_format_duration(secs: int) -> Seq<char> {
    let a = if secs < 0 {
        -secs
    } else {
        secs
    };
    if a < 60 {
        crate::text::spec_dec(a as nat) + "s"@
    } else if a < 3600 {
        crate::text::spec_dec((a / 60) as nat) + "m "@ + crate::text::spec_dec(
            (a % 60) as nat,
        ) + "s"@
    } else {
        crate::text::spec_dec((a / 3600) as nat) + "h "@ + crate::text::spec_dec(
            ((a % 3600) / 60) as nat,
        ) + "m"@
    }
}

/// Write a duration for the log.
pub fn format_duration(secs: i64) -> (r: String)
    ensures
        r@ == spec_format_duration(secs as int),
{
    let a: u64 = if secs < 0 {
        (-(secs as i128)) as u64
    } else {
        secs as u64
    };
    let mut out: Vec<char> = Vec::new();
    if a < 60 {
        let d = dec_chars(a);
        push_all(&mut out, &d);
        crate::text::push_str_chars(&mut out, "s");
    } else if a < 3600 {
        let d = dec_chars(a / 60);
        push_all(&mut out, &d);
        crate::text::push_str_chars(&mut out, "m ");
        let d2 = dec_chars(a % 60);
        push_all(&mut out, &d2);
        crate::text::push_str_chars(&mut out, "s");
    } else {
        let d = dec_chars(a / 3600);
        push_all(&mut out, &d);
        crate::text::push_str_chars(&mut out, "h ");
        let d2 = dec_chars((a % 3600) / 60);
        push_all(&mut out, &d2);
        crate::text::push_str_chars(&mut out, "m");
    }
    proof {
        assert(out@ =~= spec_format_duration(secs as int));
    }
    chars_to_string(&out)
}

/// Whether a one-shot job was already fired this run.
pub fn already_triggered(triggered: &Vec<String>, id: &str) -> (r: bool)
    ensures
        r == triggered.deep_view().contains(id@),
{
    let idc = str_to_chars(id);
    let mut i: usize = 0;
    while i < triggered.len()
        invariant
            i <= triggered@.len(),
            idc@ == id@,
            triggered.deep_view().len() == triggered@.len(),
            forall|k: int| 0 <= k < i ==> triggered.deep_view()[k] != id@,
        decreases triggered@.len() - i,
    {
        proof {
            assert(triggered.deep_view()[i as int] == triggered@[i as int]@);
        }
        let tc = str_to_chars(triggered[i].as_str());
        if crate::text::chars_eq(&tc, &idc) {
            assert(triggered.deep_view().contains(id@));
            return true;
        }
        i += 1;
    }
    assert(!triggered.deep_view().contains(id@));
    false
}

} // verus!
