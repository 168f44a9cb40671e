//! When the next occurrence of a local clock time is: parsing "HH:MM" and the
//! whole minutes until that time comes round again.

use vstd::prelude::*;

use crate::text::{digit, push_char, trim_start};

verus! {

broadcast use vstd::string::group_string_axioms;

/// A 24-hour clock time with minute precision.
#[derive(Debug, Clone, Copy, PartialEq, Eq, Structural)]
pub struct ClockTime {
    pub hour: u32,
    pub minute: u32,
}

/// Whether `c` is an ASCII digit.
pub open spec fn is_ascii_digit(c: char) -> bool {
    '0' <= c && c <= '9'
}

/// How many ASCII digits, at most two, `s` starts with.
pub open spec fn lead_digits(s: Seq<char>) -> int {
    if s.len() >= 1 && is_ascii_digit(s[0]) {
        if s.len() >= 2 && is_ascii_digit(s[1]) {
            2
        } else {
            1
        }
    } else {
        0
    }
}

/// The number that one or two ASCII digits write.
pub open spec fn digits_value(d: Seq<char>) -> int {
    if d.len() == 1 {
        d[0] as int - '0' as int
    } else {
        (d[0] as int - '0' as int) * 10 + (d[1] as int - '0' as int)
    }
}

/// The hour and minute that `%H:%M` reads from `s`: optional whitespace, one
/// or two digits for an hour up to 23, `:`, optional whitespace, one or two
/// digits for a minute up to 59, and nothing after; `None` for anything else.
pub open spec fn spec_hh_mm(s: Seq<char>) -> Option<(u32, u32)> {
    let a = trim_start(s);
    let n = lead_digits(a);
    let b = a.skip(n);
    let c = trim_start(b.skip(1));
    let k = lead_digits(c);
    if n > 0 && digits_value(a.take(n)) <= 23 && b.len() > 0 && b[0] == ':' && k > 0 && k
        == c.len() && digits_value(c) <= 59 {
        Some((digits_value(a.take(n)) as u32, digits_value(c) as u32))
    } else {
        None
    }
}

/// Parses `s` as a 24-hour `HH:MM` time with
/// `chrono::NaiveTime::parse_from_str(s, "%H:%M")`.
///
/// Claimed of it: the result is `spec_hh_mm(s)`. The format reads as three
/// items: the hour (`str::trim_start`, then one or two ASCII digits, refused
/// above 23 by `Parsed::set_hour`), the literal `:`, and the minute (the same,
/// refused above 59 by `Parsed::set_minute`); text left over is refused, and
/// the seconds default to zero.
#[verifier::external_body]
fn parse_hh_mm(s: &str) -> (r: Option<(u32, u32)>)
    ensures
        r == spec_hh_mm(s@),
{
    match chrono::NaiveTime::parse_from_str(s, "%H:%M") {
        Ok(t) => Some((chrono::Timelike::hour(&t), chrono::Timelike::minute(&t))),
        Err(_) => None,
    }
}

/// A time that `%H:%M` reads has an hour below 24 and a minute below 60.
pub proof fn lemma_hh_mm_in_range(s: Seq<char>)
    ensures
        spec_hh_mm(s) matches Some((h, m)) ==> h < 24 && m < 60,
{
    let a = trim_start(s);
    let n = lead_digits(a);
    let b = a.skip(n);
    let c = trim_start(b.skip(1));
    let k = lead_digits(c);
    if spec_hh_mm(s) is Some {
        assert(a.take(n)[0] == a[0]);
        assert(n == 2 ==> a.take(n)[1] == a[1]);
        assert(0 <= digits_value(a.take(n)) <= 23);
        assert(0 <= digits_value(c) <= 59);
    }
}

/// The current local time of day, from `chrono::Local::now()`: the seconds
/// since midnight and the nanoseconds within the second.
///
/// Claimed of it: only the ranges chrono documents, below 86,400 seconds
/// (`Timelike::num_seconds_from_midnight`) and below 2,000,000,000 nanoseconds
/// (`Timelike::nanosecond`; 1,000,000,000 and up stand for a leap second).
/// The value itself depends on the clock and is left unsaid.
#[verifier::external_body]
fn local_time_of_day() -> (r: (u32, u32))
    ensures
        r.0 < 86400,
        r.1 < 2_000_000_000,
{
    let t = chrono::Local::now().naive_local().time();
    (chrono::Timelike::num_seconds_from_midnight(&t), chrono::Timelike::nanosecond(&t))
}

/// Seconds since midnight at `t`.
pub open spec fn seconds_of(t: ClockTime) -> int {
    t.hour * 3600 + t.minute * 60
}

/// Nanoseconds from the local time of day `now_secs` (+ `now_nanos`, where
/// 1,000,000,000 and up stand for a leap second) until the next `target`:
/// later today if it has not passed yet, otherwise tomorrow. This is naive
/// date-time subtraction, which counts a leap second that is under way.
pub open spec fn nanos_until(target: ClockTime, now_secs: int, now_nanos: int) -> int {
    let t = seconds_of(target);
    if t > now_secs {
        (t - now_secs + (if now_nanos >= 1_000_000_000 {
            1int
        } else {
            0int
        })) * 1_000_000_000 - now_nanos
    } else {
        (86400 + t - now_secs) * 1_000_000_000 - now_nanos
    }
}

/// Whole minutes until the next `target`, at least one so that nothing is
/// scheduled slightly before the target because of truncation.
pub open spec fn spec_minutes_until(target: ClockTime, now_secs: int, now_nanos: int) -> int {
    let whole = nanos_until(target, now_secs, now_nanos) / 60_000_000_000;
    if whole < 1 {
        1
    } else {
        whole
    }
}

/// Whole minutes from the local time of day `now_secs` + `now_nanos` until
/// the next occurrence of `target`.
pub fn minutes_until(target: ClockTime, now_secs: u32, now_nanos: u32) -> (r: i64)
    requires
        target.hour < 24,
        target.minute < 60,
        now_secs < 86400,
        now_nanos < 2_000_000_000,
    ensures
        r == spec_minutes_until(target, now_secs as int, now_nanos as int),
        1 <= r <= 1440,
{
    let t: i64 = target.hour as i64 * 3600 + target.minute as i64 * 60;
    let s: i64 = now_secs as i64;
    let f: i64 = now_nanos as i64;
    let total: i64 = if t > s {
        let leap: i64 = if f >= 1_000_000_000 {
            1
        } else {
            0
        };
        (t - s + leap) * 1_000_000_000 - f
    } else {
        (86400 + t - s) * 1_000_000_000 - f
    };
    assert(total == nanos_until(target, now_secs as int, now_nanos as int));
    let whole: i64 = if total >= 0 {
        total / 60_000_000_000
    } else {
        0
    };
    assert(total < 0 ==> total / 60_000_000_000 < 1);
    if whole < 1 {
        1
    } else {
        whole
    }
}

/// Why a time string was refused.
#[derive(Debug)]
pub struct InvalidTime {
    pub input: String,
}

impl InvalidTime {
    /// How the refusal is reported.
    pub fn message(&self) -> (r: String)
        ensures
            r@ == "invalid time '"@ + self.input@ + "', expected 24-hour HH:MM (e.g. 18:30)"@,
    {
        let mut r = String::from_str("invalid time '");
        r.append(self.input.as_str());
        r.append("', expected 24-hour HH:MM (e.g. 18:30)");
        r
    }
}

/// Parses a "HH:MM" 24-hour local time string and computes how many whole
/// minutes remain, from the local time of day `now_secs` + `now_nanos`, until
/// the next occurrence of that clock time (today if it has not passed yet,
/// otherwise tomorrow). Returns the minutes and the parsed time.
pub fn minutes_until_next_at(time_str: &str, now_secs: u32, now_nanos: u32) -> (r: Result<
    (i64, ClockTime),
    InvalidTime,
>)
    requires
        now_secs < 86400,
        now_nanos < 2_000_000_000,
    ensures
        spec_hh_mm(time_str@) is None ==> (r matches Err(e) && e.input@ == time_str@),
        spec_hh_mm(time_str@) matches Some((h, m)) ==> (r matches Ok((mins, t)) && t.hour == h
            && t.minute == m && mins == spec_minutes_until(t, now_secs as int, now_nanos as int)),
        r matches Ok((mins, t)) ==> t.hour < 24 && t.minute < 60 && 1 <= mins <= 1440,
{
    let parsed = parse_hh_mm(time_str);
    proof {
        lemma_hh_mm_in_range(time_str@);
    }
    match parsed {
        None => Err(InvalidTime { input: String::from_str(time_str) }),
        Some((h, m)) => {
            let target = ClockTime { hour: h, minute: m };
            let minutes = minutes_until(target, now_secs, now_nanos);
            Ok((minutes, target))
        },
    }
}

/// Parses a "HH:MM" 24-hour local time string and computes how many whole
/// minutes remain until the next occurrence of that clock time on the local
/// clock, read once (today if it has not passed yet, otherwise tomorrow).
/// Returns the minutes and the parsed time, so callers can print the resolved
/// target time.
pub fn minutes_until_next(time_str: &str) -> (r: Result<(i64, ClockTime), InvalidTime>)
    ensures
        spec_hh_mm(time_str@) is None ==> (r matches Err(e) && e.input@ == time_str@),
        spec_hh_mm(time_str@) matches Some((h, m)) ==> (r matches Ok((mins, t)) && t.hour == h
            && t.minute == m && 1 <= mins <= 1440 && exists|s: int, f: int|
            0 <= s < 86400 && 0 <= f < 2_000_000_000 && mins == spec_minutes_until(t, s, f)),
        r matches Ok((_, t)) ==> t.hour < 24 && t.minute < 60,
{
    let (secs, nanos) = local_time_of_day();
    let r = minutes_until_next_at(time_str, secs, nanos);
    assert(r matches Ok((mins, t)) ==> 0 <= secs < 86400 && 0 <= nanos < 2_000_000_000
        && mins == spec_minutes_until(t, secs as int, nanos as int));
    r
}

/// The whole minutes until `target` are those from now until its next
/// occurrence strictly after now (later today while it is still ahead,
/// otherwise the same clock time tomorrow), and at least one. Here now is
/// `now_secs` seconds and `now_nanos` nanoseconds after midnight, outside a
/// leap second.
pub proof fn lemma_minutes_until_next_occurrence(target: ClockTime, now_secs: int, now_nanos: int)
    requires
        target.hour < 24,
        target.minute < 60,
        0 <= now_secs < 86400,
        0 <= now_nanos < 1_000_000_000,
    ensures
        ({
            let now = now_secs * 1_000_000_000 + now_nanos;
            let today = (target.hour * 3600 + target.minute * 60) * 1_000_000_000;
            let next = if today > now {
                today
            } else {
                today + 86_400_000_000_000
            };
            let d = next - now;
            let m = spec_minutes_until(target, now_secs, now_nanos);
            &&& now < next <= now + 86_400_000_000_000
            &&& 1 <= m
            &&& (d < 60_000_000_000 ==> m == 1)
            &&& (d >= 60_000_000_000 ==> m * 60_000_000_000 <= d < (m + 1) * 60_000_000_000)
        }),
{
    let now = now_secs * 1_000_000_000 + now_nanos;
    let t = seconds_of(target);
    let today = t * 1_000_000_000;
    assert(today == (target.hour * 3600 + target.minute * 60) * 1_000_000_000);
    let n = nanos_until(target, now_secs, now_nanos);
    assert(t > now_secs <==> today > now) by (nonlinear_arith)
        requires
            today == t * 1_000_000_000,
            now == now_secs * 1_000_000_000 + now_nanos,
            0 <= now_nanos < 1_000_000_000,
    ;
    let next = if today > now {
        today
    } else {
        today + 86_400_000_000_000
    };
    assert(n == next - now);
    let q = n / 60_000_000_000;
    assert(q * 60_000_000_000 <= n < (q + 1) * 60_000_000_000) by (nonlinear_arith)
        requires
            n > 0,
            q == n / 60_000_000_000,
    ;
}

impl ClockTime {
    /// The time as `%H:%M` formats it: two zero-padded digits each.
    pub fn to_string(&self) -> (r: String)
        requires
            self.hour < 100,
            self.minute < 100,
        ensures
            r@ == seq![
                digit((self.hour / 10) as nat),
                digit((self.hour % 10) as nat),
                ':',
                digit((self.minute / 10) as nat),
                digit((self.minute % 10) as nat),
            ],
    {
        let mut r = String::new();
        push_char(&mut r, ((self.hour / 10) as u8 + 48) as char);
        push_char(&mut r, ((self.hour % 10) as u8 + 48) as char);
        push_char(&mut r, ':');
        push_char(&mut r, ((self.minute / 10) as u8 + 48) as char);
        push_char(&mut r, ((self.minute % 10) as u8 + 48) as char);
        assert(r@ =~= seq![
            digit((self.hour / 10) as nat),
            digit((self.hour % 10) as nat),
            ':',
            digit((self.minute / 10) as nat),
            digit((self.minute % 10) as nat),
        ]);
        r
    }
}

} // verus!
