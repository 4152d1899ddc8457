//! Activation times: an optionally-present start and end date-time. The
//! ISO-8601 notation itself is decoded by the `iso8601` crate behind one
//! trusted wrapper; the canonical writer is the library's own.
use vstd::prelude::*;

use crate::chars::{
    chars_eq_str_ci, chars_of, dec_rep, dec_rep_min, eq_ci, exec_find_char, find_char,
    push_dec_min, push_dec_u64, str_eq_ci, string_of, string_of_range,
};

verus! {

broadcast use vstd::string::group_string_axioms;

/// A calendar date in one of the three ISO-8601 shapes.
#[derive(Debug, PartialEq, Eq, Clone, Copy, Structural)]
pub enum Date {
    /// Year, month and day of month.
    Ymd { year: i32, month: u32, day: u32 },
    /// Year, week and day of week.
    Week { year: i32, ww: u32, d: u32 },
    /// Year and day of year.
    Ordinal { year: i32, ddd: u32 },
}

/// A time of day with its timezone offset.
#[derive(Debug, PartialEq, Eq, Clone, Copy, Structural)]
pub struct Time {
    pub hour: u32,
    pub minute: u32,
    pub second: u32,
    pub millisecond: u32,
    pub tz_offset_hours: i32,
    pub tz_offset_minutes: i32,
}

/// A date and a time of day.
#[derive(Debug, PartialEq, Eq, Clone, Copy, Structural)]
pub struct DateTime {
    pub date: Date,
    pub time: Time,
}

/// What `iso8601::datetime` decodes a given text to, if anything.
pub uninterp spec fn iso_datetime_of(s: Seq<char>) -> Option<DateTime>;

/// Relies on `iso8601::datetime`: decodes an ISO-8601 date-time; the result
/// depends on the text alone, and a failure is reported naming the text.
#[verifier::external_body]
fn parse_datetime(s: &str) -> (r: Result<DateTime, String>)
    ensures
        match r {
            Ok(dt) => iso_datetime_of(s@) == Some(dt),
            Err(m) => iso_datetime_of(s@) is None && m@ == "Failed to parse datetime: "@ + s@,
        },
{
    let dt = match iso8601::datetime(s) {
        Ok(d) => d,
        Err(e) => return Err(e),
    };
    let t = dt.time;
    let date = match dt.date {
        iso8601::Date::YMD { year, month, day } => Date::Ymd { year, month, day },
        iso8601::Date::Week { year, ww, d } => Date::Week { year, ww, d },
        iso8601::Date::Ordinal { year, ddd } => Date::Ordinal { year, ddd },
    };
    Ok(DateTime { date, time: Time { hour: t.hour, minute: t.minute, second: t.second,
        millisecond: t.millisecond, tz_offset_hours: t.tz_offset_hours,
        tz_offset_minutes: t.tz_offset_minutes } })
}

/// Airspace activation times; either bound may be open-ended.
#[derive(Debug, Clone, Copy, Eq, PartialEq, Structural)]
pub struct ActivationTimes {
    /// The start bound, absent when open-ended.
    pub start: Option<DateTime>,
    /// The end bound, absent when open-ended.
    pub end: Option<DateTime>,
}

/// The activation times denoted by an activation payload, or the exact
/// failure message.
pub open spec fn spec_parse_activation(s: Seq<char>) -> Result<ActivationTimes, Seq<char>> {
    if eq_ci(s, "NONE"@) {
        Ok(ActivationTimes { start: None, end: None })
    } else {
        let k = find_char(s, 0, '/');
        if k == s.len() {
            Err("Invalid activation times record: "@ + s)
        } else {
            let a = s.subrange(0, k);
            let b = s.subrange(k + 1, s.len() as int);
            if !eq_ci(a, "NONE"@) && iso_datetime_of(a) is None {
                Err("Failed to parse datetime: "@ + a)
            } else if !eq_ci(b, "NONE"@) && iso_datetime_of(b) is None {
                Err("Failed to parse datetime: "@ + b)
            } else {
                Ok(
                    ActivationTimes {
                        start: if eq_ci(a, "NONE"@) {
                            None
                        } else {
                            iso_datetime_of(a)
                        },
                        end: if eq_ci(b, "NONE"@) {
                            None
                        } else {
                            iso_datetime_of(b)
                        },
                    },
                )
            }
        }
    }
}

/// Minimum-width formatting of a year, signed.
pub open spec fn spec_render_year(y: int) -> Seq<char> {
    if y < 0 {
        seq!['-'] + dec_rep_min((-y) as nat, 4)
    } else {
        dec_rep_min(y as nat, 4)
    }
}

/// The canonical text of a date.
pub open spec fn spec_render_date(d: Date) -> Seq<char> {
    match d {
        Date::Ymd { year, month, day } => spec_render_year(year as int) + seq!['-'] + dec_rep_min(
            month as nat,
            2,
        ) + seq!['-'] + dec_rep_min(day as nat, 2),
        Date::Week { year, ww, d } => spec_render_year(year as int) + seq!['-', 'W'] + dec_rep_min(
            ww as nat,
            2,
        ) + seq!['-'] + dec_rep_min(d as nat, 1),
        Date::Ordinal { year, ddd } => spec_render_year(year as int) + seq!['-'] + dec_rep_min(
            ddd as nat,
            3,
        ),
    }
}

/// The canonical text of a time of day with its timezone offset.
pub open spec fn spec_render_time(t: Time) -> Seq<char> {
    let neg = t.tz_offset_hours < 0 || t.tz_offset_minutes < 0;
    let sign: char = if neg {
        '-'
    } else {
        '+'
    };
    let th: int = if t.tz_offset_hours < 0 {
        -t.tz_offset_hours
    } else {
        t.tz_offset_hours as int
    };
    let tm: int = if t.tz_offset_minutes < 0 {
        -t.tz_offset_minutes
    } else {
        t.tz_offset_minutes as int
    };
    dec_rep_min(t.hour as nat, 2) + seq![':'] + dec_rep_min(t.minute as nat, 2) + seq![':']
        + dec_rep_min(t.second as nat, 2) + seq!['.'] + dec_rep(t.millisecond as nat) + seq![sign]
        + dec_rep_min(th as nat, 2) + seq![':'] + dec_rep_min(tm as nat, 2)
}

/// The canonical text of a date-time.
pub open spec fn spec_render_datetime(dt: DateTime) -> Seq<char> {
    spec_render_date(dt.date) + seq!['T'] + spec_render_time(dt.time)
}

/// The canonical text of activation times.
pub open spec fn spec_render_activation(t: ActivationTimes) -> Seq<char> {
    match (t.start, t.end) {
        (Option::None, Option::None) => "NONE"@,
        (s, e) => (match s {
            Option::Some(dt) => spec_render_datetime(dt),
            Option::None => "NONE"@,
        }) + seq!['/'] + (match e {
            Option::Some(dt) => spec_render_datetime(dt),
            Option::None => "NONE"@,
        }),
    }
}

impl ActivationTimes {
    /// Activation times with the given bounds.
    pub fn new(start: Option<DateTime>, end: Option<DateTime>) -> (r: Self)
        ensures
            r.start == start && r.end == end,
    {
        Self { start, end }
    }

    /// Fully inactive: both bounds absent.
    pub fn none() -> (r: Self)
        ensures
            r.start is None && r.end is None,
    {
        Self::new(None, None)
    }

    /// Decodes an activation payload: `NONE` alone means fully inactive,
    /// else each side of the slash is `NONE` or a full ISO-8601 date-time.
    pub fn from_str(data: &str) -> (r: Result<Self, String>)
        ensures
            match r {
                Ok(t) => spec_parse_activation(data@) == Ok::<ActivationTimes, Seq<char>>(t),
                Err(m) => spec_parse_activation(data@) is Err && m@ == spec_parse_activation(
                    data@,
                )->Err_0,
            },
    {
        if str_eq_ci(data, "NONE") {
            return Ok(Self::none());
        }
        let v = chars_of(data);
        let n = v.len();
        let k = exec_find_char(&v, 0, '/');
        if k == n {
            return Err(String::from_str("Invalid activation times record: ").concat(data));
        }
        let start: Option<DateTime> = if chars_eq_str_ci(&v, 0, k, "NONE") {
            None
        } else {
            let part = string_of_range(&v, 0, k);
            match parse_datetime(part.as_str()) {
                Ok(dt) => Some(dt),
                Err(e) => {
                    return Err(e);
                },
            }
        };
        let end: Option<DateTime> = if chars_eq_str_ci(&v, k + 1, n, "NONE") {
            None
        } else {
            let part = string_of_range(&v, k + 1, n);
            match parse_datetime(part.as_str()) {
                Ok(dt) => Some(dt),
                Err(e) => {
                    return Err(e);
                },
            }
        };
        Ok(Self { start, end })
    }

    /// Writes the activation times in their canonical form.
    pub fn write(&self) -> (r: String)
        ensures
            r@ == spec_render_activation(*self),
    {
        match (self.start, self.end) {
            (Option::None, Option::None) => String::from_str("NONE"),
            (s, e) => {
                let mut out: Vec<char> = Vec::new();
                match s {
                    Option::Some(dt) => push_datetime(&mut out, dt),
                    Option::None => {
                        out.push('N');
                        out.push('O');
                        out.push('N');
                        out.push('E');
                        proof {
                            reveal_strlit("NONE");
                            assert(out@ =~= "NONE"@);
                        }
                    },
                }
                out.push('/');
                let ghost mid = out@;
                match e {
                    Option::Some(dt) => push_datetime(&mut out, dt),
                    Option::None => {
                        out.push('N');
                        out.push('O');
                        out.push('N');
                        out.push('E');
                        proof {
                            reveal_strlit("NONE");
                            assert(out@ =~= mid + "NONE"@);
                        }
                    },
                }
                proof {
                    assert(out@ =~= spec_render_activation(*self));
                }
                string_of(&out)
            },
        }
    }
}

/// Appends the canonical text of a date-time.
fn push_datetime(out: &mut Vec<char>, dt: DateTime)
    ensures
        final(out)@ == old(out)@ + spec_render_datetime(dt),
{
    push_date(out, dt.date);
    out.push('T');
    push_time(out, dt.time);
    proof {
        assert(final(out)@ =~= old(out)@ + spec_render_datetime(dt));
    }
}

/// Appends the canonical text of a year.
fn push_year(out: &mut Vec<char>, y: i32)
    ensures
        final(out)@ == old(out)@ + spec_render_year(y as int),
{
    if y < 0 {
        out.push('-');
        let m: u64 = if y == i32::MIN {
            2147483648u64
        } else {
            (-y) as u64
        };
        push_dec_min(out, m, 4);
        assert(final(out)@ =~= old(out)@ + spec_render_year(y as int));
    } else {
        push_dec_min(out, y as u64, 4);
    }
}

/// Appends the canonical text of a date.
fn push_date(out: &mut Vec<char>, d: Date)
    ensures
        final(out)@ == old(out)@ + spec_render_date(d),
{
    match d {
        Date::Ymd { year, month, day } => {
            push_year(out, year);
            out.push('-');
            push_dec_min(out, month as u64, 2);
            out.push('-');
            push_dec_min(out, day as u64, 2);
            assert(final(out)@ =~= old(out)@ + spec_render_date(d));
        },
        Date::Week { year, ww, d: dw } => {
            push_year(out, year);
            out.push('-');
            out.push('W');
            push_dec_min(out, ww as u64, 2);
            out.push('-');
            push_dec_min(out, dw as u64, 1);
            assert(final(out)@ =~= old(out)@ + spec_render_date(d));
        },
        Date::Ordinal { year, ddd } => {
            push_year(out, year);
            out.push('-');
            push_dec_min(out, ddd as u64, 3);
            assert(final(out)@ =~= old(out)@ + spec_render_date(d));
        },
    }
}

/// Appends the canonical text of a time of day.
fn push_time(out: &mut Vec<char>, t: Time)
    ensures
        final(out)@ == old(out)@ + spec_render_time(t),
{
    let neg = t.tz_offset_hours < 0 || t.tz_offset_minutes < 0;
    let sign: char = if neg {
        '-'
    } else {
        '+'
    };
    let th: u64 = if t.tz_offset_hours == i32::MIN {
        2147483648u64
    } else if t.tz_offset_hours < 0 {
        (-t.tz_offset_hours) as u64
    } else {
        t.tz_offset_hours as u64
    };
    let tm: u64 = if t.tz_offset_minutes == i32::MIN {
        2147483648u64
    } else if t.tz_offset_minutes < 0 {
        (-t.tz_offset_minutes) as u64
    } else {
        t.tz_offset_minutes as u64
    };
    push_dec_min(out, t.hour as u64, 2);
    out.push(':');
    push_dec_min(out, t.minute as u64, 2);
    out.push(':');
    push_dec_min(out, t.second as u64, 2);
    out.push('.');
    push_dec_u64(out, t.millisecond as u64);
    out.push(sign);
    push_dec_min(out, th, 2);
    out.push(':');
    push_dec_min(out, tm, 2);
    proof {
        assert(final(out)@ =~= old(out)@ + spec_render_time(t));
    }
}

} // verus!
