//! The date extractor: matches the parenthesized date-time expression that
//! ends a report title, normalizes the captured digit runs, and checks the
//! resulting calendar date against the fixed Japan Standard Time zone.
//!
//! The title must end with `（YEAR年MONTH月DAY日HOUR時[MINUTE分]時点）`, where
//! each component is a maximal, non-empty run of digit characters (ASCII or
//! full-width) and the minute component is optional (absence means zero).
//! Anything before the opening parenthesis is ignored.

use vstd::prelude::*;

use crate::digits::all_digits;
use crate::digits::digits_value;
use crate::digits::is_digit_char;
use crate::digits::is_digit_char_exec;
use crate::digits::lemma_digits_value_nonneg;
use crate::digits::lemma_normalize_preserves_value;
use crate::digits::parse_decimal;
use crate::digits::to_half_digits;
use vstd::string::StrSliceExecFns;
use vstd::string::StringExecFns;

verus! {

/// The start of the maximal run of digit characters that ends just before
/// `end`: the least index from which every character up to `end` is a digit.
pub open spec fn digit_run_start(t: Seq<char>, end: int) -> int
    decreases end,
{
    if 0 < end <= t.len() && is_digit_char(t[end - 1]) {
        digit_run_start(t, end - 1)
    } else {
        end
    }
}

pub proof fn lemma_digit_run_digits(t: Seq<char>, end: int)
    requires
        0 <= end <= t.len(),
    ensures
        0 <= digit_run_start(t, end) <= end,
        forall|k: int| digit_run_start(t, end) <= k < end ==> is_digit_char(#[trigger] t[k]),
    decreases end,
{
    if 0 < end && is_digit_char(t[end - 1]) {
        lemma_digit_run_digits(t, end - 1);
    }
}

/// Walks left from `end` to the start of the maximal digit run.
fn digit_run_start_exec(s: &str, end: usize) -> (r: usize)
    requires
        end <= s@.len(),
    ensures
        r as int == digit_run_start(s@, end as int),
        r <= end,
    decreases end,
{
    let mut cur = end;
    while cur > 0 && is_digit_char_exec(s.get_char(cur - 1))
        invariant
            cur <= end <= s@.len(),
            digit_run_start(s@, end as int) == digit_run_start(s@, cur as int),
        decreases cur,
    {
        cur = cur - 1;
    }
    cur
}

/// The five raw substrings captured by the date pattern, before digit
/// normalization.
pub struct DateCaptureView {
    pub year: Seq<char>,
    pub month: Seq<char>,
    pub day: Seq<char>,
    pub hour: Seq<char>,
    pub minute: Option<Seq<char>>,
}

/// The captured runs of a matched title, as owned strings.
#[derive(Debug, Clone)]
pub struct DateCapture {
    pub year: String,
    pub month: String,
    pub day: String,
    pub hour: String,
    pub minute: Option<String>,
}

impl View for DateCapture {
    type V = DateCaptureView;

    open spec fn view(&self) -> DateCaptureView {
        DateCaptureView {
            year: self.year@,
            month: self.month@,
            day: self.day@,
            hour: self.hour@,
            minute: match self.minute {
                Option::Some(m) => Option::Some(m@),
                Option::None => Option::None,
            },
        }
    }
}

/// Continues the end-anchored match below the optional minute component:
/// `q` is the position just past the hour marker, and the hour, day, month
/// and year runs must follow right-to-left, with the opening parenthesis
/// immediately before the year run.
pub open spec fn capture_from(t: Seq<char>, q: int, minute: Option<Seq<char>>) -> Option<
    DateCaptureView,
> {
    if 1 <= q <= t.len() && t[q - 1] == '\u{6642}' {
        let h0 = digit_run_start(t, q - 1);
        if h0 < q - 1 && h0 >= 1 && t[h0 - 1] == '\u{65E5}' {
            let d0 = digit_run_start(t, h0 - 1);
            if d0 < h0 - 1 && d0 >= 1 && t[d0 - 1] == '\u{6708}' {
                let mo0 = digit_run_start(t, d0 - 1);
                if mo0 < d0 - 1 && mo0 >= 1 && t[mo0 - 1] == '\u{5E74}' {
                    let y0 = digit_run_start(t, mo0 - 1);
                    if y0 < mo0 - 1 && y0 >= 1 && t[y0 - 1] == '\u{FF08}' {
                        Option::Some(
                            DateCaptureView {
                                year: t.subrange(y0, mo0 - 1),
                                month: t.subrange(mo0, d0 - 1),
                                day: t.subrange(d0, h0 - 1),
                                hour: t.subrange(h0, q - 1),
                                minute,
                            },
                        )
                    } else {
                        Option::None
                    }
                } else {
                    Option::None
                }
            } else {
                Option::None
            }
        } else {
            Option::None
        }
    } else {
        Option::None
    }
}

/// The end-anchored date pattern: the title must end with the closing
/// `時点）`, optionally preceded by a minute run and its marker, then the
/// hour, day, month and year runs with their markers.
pub open spec fn spec_capture(t: Seq<char>) -> Option<DateCaptureView> {
    let n = t.len() as int;
    if n >= 3 && t[n - 3] == '\u{6642}' && t[n - 2] == '\u{70B9}' && t[n - 1] == '\u{FF09}' {
        let p = n - 3;
        if p >= 1 && t[p - 1] == '\u{5206}' {
            let m0 = digit_run_start(t, p - 1);
            if m0 < p - 1 {
                capture_from(t, m0, Option::Some(t.subrange(m0, p - 1)))
            } else {
                Option::None
            }
        } else {
            capture_from(t, p, Option::None)
        }
    } else {
        Option::None
    }
}

/// Every run a matched pattern captures is a non-empty string of digit
/// characters.
pub open spec fn capture_wf(c: DateCaptureView) -> bool {
    &&& c.year.len() > 0 && all_digits(c.year)
    &&& c.month.len() > 0 && all_digits(c.month)
    &&& c.day.len() > 0 && all_digits(c.day)
    &&& c.hour.len() > 0 && all_digits(c.hour)
    &&& match c.minute {
        Option::Some(m) => m.len() > 0 && all_digits(m),
        Option::None => true,
    }
}

/// Matches the date pattern against a title and returns the five captured
/// digit runs, or nothing if the pattern does not match.
pub fn capture_datetime(title: &str) -> (r: Option<DateCapture>)
    ensures
        r is Some <==> spec_capture(title@) is Some,
        r matches Some(c) ==> spec_capture(title@) == Some(c@) && capture_wf(c@),
{
    let n = title.unicode_len();
    if n < 3 {
        return None;
    }
    if !(title.get_char(n - 3) == '\u{6642}' && title.get_char(n - 2) == '\u{70B9}'
        && title.get_char(n - 1) == '\u{FF09}') {
        return None;
    }
    let p = n - 3;
    let (m_run, q): (Option<&str>, usize) = if p >= 1 && title.get_char(p - 1) == '\u{5206}' {
        let m0 = digit_run_start_exec(title, p - 1);
        proof {
            lemma_digit_run_digits(title@, p as int - 1);
        }
        if m0 < p - 1 {
            (Some(title.substring_char(m0, p - 1)), m0)
        } else {
            return None;
        }
    } else {
        (None, p)
    };
    if !(q >= 1 && title.get_char(q - 1) == '\u{6642}') {
        return None;
    }
    let h0 = digit_run_start_exec(title, q - 1);
    proof {
        lemma_digit_run_digits(title@, q as int - 1);
    }
    if !(h0 < q - 1 && h0 >= 1 && title.get_char(h0 - 1) == '\u{65E5}') {
        return None;
    }
    let d0 = digit_run_start_exec(title, h0 - 1);
    proof {
        lemma_digit_run_digits(title@, h0 as int - 1);
    }
    if !(d0 < h0 - 1 && d0 >= 1 && title.get_char(d0 - 1) == '\u{6708}') {
        return None;
    }
    let mo0 = digit_run_start_exec(title, d0 - 1);
    proof {
        lemma_digit_run_digits(title@, d0 as int - 1);
    }
    if !(mo0 < d0 - 1 && mo0 >= 1 && title.get_char(mo0 - 1) == '\u{5E74}') {
        return None;
    }
    let y0 = digit_run_start_exec(title, mo0 - 1);
    proof {
        lemma_digit_run_digits(title@, mo0 as int - 1);
    }
    if !(y0 < mo0 - 1 && y0 >= 1 && title.get_char(y0 - 1) == '\u{FF08}') {
        return None;
    }
    let cap = DateCapture {
        year: String::from_str(title.substring_char(y0, mo0 - 1)),
        month: String::from_str(title.substring_char(mo0, d0 - 1)),
        day: String::from_str(title.substring_char(d0, h0 - 1)),
        hour: String::from_str(title.substring_char(h0, q - 1)),
        minute: match m_run {
            Some(m) => Some(String::from_str(m)),
            None => None,
        },
    };
    Some(cap)
}

/// A timezone-aware timestamp at minute precision: a calendar date and time
/// of day in Japan Standard Time (UTC+9, no daylight saving), with seconds
/// always zero.
#[derive(Clone, Copy, Debug, PartialEq, Eq, Structural)]
pub struct Timestamp {
    pub year: i32,
    pub month: u32,
    pub day: u32,
    pub hour: u32,
    pub minute: u32,
}

/// Whether the given calendar date and time of day exists, uniquely, in the
/// Tokyo time zone.
pub uninterp spec fn jst_valid(year: int, month: int, day: int, hour: int, minute: int) -> bool;

/// Relies on chrono's `TimeZone::with_ymd_and_hms` applied to chrono-tz's
/// `Asia::Tokyo`: whether the given local date-time exists uniquely in that
/// zone is a function of the arguments alone, computed from the time-zone
/// data compiled into the library, and the call does not panic.
#[verifier::external_body]
fn jst_single(year: i32, month: u32, day: u32, hour: u32, minute: u32) -> (r: bool)
    ensures
        r == jst_valid(year as int, month as int, day as int, hour as int, minute as int),
{
    chrono::TimeZone::with_ymd_and_hms(&chrono_tz::Asia::Tokyo, year, month, day, hour, minute, 0)
        .single()
        .is_some()
}

/// What extracting a timestamp from a title returns: the captured runs, each
/// normalized and read as a decimal number, combined into a Japan Standard
/// Time timestamp (minute zero when absent); nothing if the pattern does not
/// match, a value does not fit its width, or the zone has no such time.
pub open spec fn spec_extract_datetime(t: Seq<char>) -> Option<Timestamp> {
    match spec_capture(t) {
        Option::None => Option::None,
        Option::Some(cap) => {
            let y = digits_value(cap.year);
            let mo = digits_value(cap.month);
            let d = digits_value(cap.day);
            let h = digits_value(cap.hour);
            let mi = match cap.minute {
                Option::Some(m) => digits_value(m),
                Option::None => 0,
            };
            if y <= 0x7FFF_FFFF && mo <= u32::MAX && d <= u32::MAX && h <= u32::MAX && mi
                <= u32::MAX && jst_valid(y, mo, d, h, mi) {
                Option::Some(
                    Timestamp {
                        year: y as i32,
                        month: mo as u32,
                        day: d as u32,
                        hour: h as u32,
                        minute: mi as u32,
                    },
                )
            } else {
                Option::None
            }
        },
    }
}

/// Extracts the timezone-aware timestamp from a report title, or nothing if
/// the end-anchored date pattern does not match or the date is invalid.
pub fn extract_datetime(title: &str) -> (r: Option<Timestamp>)
    ensures
        r == spec_extract_datetime(title@),
{
    let cap = match capture_datetime(title) {
        Some(c) => c,
        None => {
            return None;
        },
    };
    let y_norm = match to_half_digits(cap.year.as_str()) {
        Some(s) => s,
        None => {
            return None;
        },
    };
    let mo_norm = match to_half_digits(cap.month.as_str()) {
        Some(s) => s,
        None => {
            return None;
        },
    };
    let d_norm = match to_half_digits(cap.day.as_str()) {
        Some(s) => s,
        None => {
            return None;
        },
    };
    let h_norm = match to_half_digits(cap.hour.as_str()) {
        Some(s) => s,
        None => {
            return None;
        },
    };
    proof {
        lemma_normalize_preserves_value(cap.year@);
        lemma_normalize_preserves_value(cap.month@);
        lemma_normalize_preserves_value(cap.day@);
        lemma_normalize_preserves_value(cap.hour@);
        lemma_digits_value_nonneg(cap.year@);
        lemma_digits_value_nonneg(cap.month@);
        lemma_digits_value_nonneg(cap.day@);
        lemma_digits_value_nonneg(cap.hour@);
    }
    let y = match parse_decimal(y_norm.as_str(), 0x7FFF_FFFF) {
        Ok(v) => v,
        Err(_) => {
            return None;
        },
    };
    let mo = match parse_decimal(mo_norm.as_str(), u32::MAX) {
        Ok(v) => v,
        Err(_) => {
            return None;
        },
    };
    let d = match parse_decimal(d_norm.as_str(), u32::MAX) {
        Ok(v) => v,
        Err(_) => {
            return None;
        },
    };
    let h = match parse_decimal(h_norm.as_str(), u32::MAX) {
        Ok(v) => v,
        Err(_) => {
            return None;
        },
    };
    let mi: u32 = match &cap.minute {
        Some(m) => {
            let m_norm = match to_half_digits(m.as_str()) {
                Some(s) => s,
                None => {
                    return None;
                },
            };
            proof {
                lemma_normalize_preserves_value(m@);
                lemma_digits_value_nonneg(m@);
            }
            match parse_decimal(m_norm.as_str(), u32::MAX) {
                Ok(v) => v,
                Err(_) => {
                    return None;
                },
            }
        },
        None => 0,
    };
    if jst_single(y as i32, mo, d, h, mi) {
        Some(Timestamp { year: y as i32, month: mo, day: d, hour: h, minute: mi })
    } else {
        None
    }
}

} // verus!
