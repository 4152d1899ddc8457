//! The per-line record recognizer and writer: one line of text in, one typed
//! record out, and the inverse.
use vstd::prelude::*;

use crate::activations::{spec_parse_activation, spec_render_activation, ActivationTimes};
use crate::altitude::{alt_err_msg, spec_parse_altitude, spec_parse_u16, spec_render_altitude,
    all_digits_range, trim_vec, AltV, Altitude};
use crate::chars::{
    chars_of, dec_rep, exec_find_char, find_char, parse_digits_capped, skip_spaces, trimmed,
    exec_skip_spaces,
};
use crate::classes::{spec_class_code, spec_parse_class, Class};
use crate::coords::{spec_parse_coord, spec_render_coord, Coord};
use crate::decimal::{spec_parse_decimal, spec_render_decimal, Decimal};
use crate::geometry::{spec_parse_direction, Direction};

verus! {

broadcast use vstd::string::group_string_axioms;

/// A parsed record from a single line.
#[derive(Debug, PartialEq)]
pub enum Record<'a> {
    // Airspace base records
    AirspaceClass(Class),
    AirspaceName(&'a str),
    LowerBound(Altitude),
    UpperBound(Altitude),
    // Extension records
    AirspaceType(&'a str),
    Frequency(&'a str),
    CallSign(&'a str),
    TransponderCode(u16),
    ActivationTimes(ActivationTimes),
    UnknownExtension(&'a str),
    // Variable records
    VarX(Coord),
    VarD(Direction),
    // Geometry records
    Point(Coord),
    CircleRadius(Decimal),
    ArcSegmentData { radius: Decimal, angle_start: Decimal, angle_end: Decimal },
    ArcData { start: Coord, end: Coord },
    // Ignored records (no payload)
    Empty,
    Comment,
    LabelPlacement,
    Pen,
    Brush,
}

/// Mathematical image of a `Record`.
pub enum RecordV {
    AirspaceClass(Class),
    AirspaceName(Seq<char>),
    LowerBound(AltV),
    UpperBound(AltV),
    AirspaceType(Seq<char>),
    Frequency(Seq<char>),
    CallSign(Seq<char>),
    TransponderCode(u16),
    ActivationTimes(ActivationTimes),
    UnknownExtension(Seq<char>),
    VarX(Coord),
    VarD(Direction),
    Point(Coord),
    CircleRadius(Decimal),
    ArcSegmentData { radius: Decimal, angle_start: Decimal, angle_end: Decimal },
    ArcData { start: Coord, end: Coord },
    Empty,
    Comment,
    LabelPlacement,
    Pen,
    Brush,
}

impl<'a> View for Record<'a> {
    type V = RecordV;

    open spec fn view(&self) -> RecordV {
        match self {
            Record::AirspaceClass(c) => RecordV::AirspaceClass(*c),
            Record::AirspaceName(s) => RecordV::AirspaceName(s@),
            Record::LowerBound(a) => RecordV::LowerBound(a@),
            Record::UpperBound(a) => RecordV::UpperBound(a@),
            Record::AirspaceType(s) => RecordV::AirspaceType(s@),
            Record::Frequency(s) => RecordV::Frequency(s@),
            Record::CallSign(s) => RecordV::CallSign(s@),
            Record::TransponderCode(c) => RecordV::TransponderCode(*c),
            Record::ActivationTimes(t) => RecordV::ActivationTimes(*t),
            Record::UnknownExtension(s) => RecordV::UnknownExtension(s@),
            Record::VarX(c) => RecordV::VarX(*c),
            Record::VarD(d) => RecordV::VarD(*d),
            Record::Point(c) => RecordV::Point(*c),
            Record::CircleRadius(d) => RecordV::CircleRadius(*d),
            Record::ArcSegmentData { radius, angle_start, angle_end } => RecordV::ArcSegmentData {
                radius: *radius,
                angle_start: *angle_start,
                angle_end: *angle_end,
            },
            Record::ArcData { start, end } => RecordV::ArcData { start: *start, end: *end },
            Record::Empty => RecordV::Empty,
            Record::Comment => RecordV::Comment,
            Record::LabelPlacement => RecordV::LabelPlacement,
            Record::Pen => RecordV::Pen,
            Record::Brush => RecordV::Brush,
        }
    }
}

/// The two-byte line terminator of the format.
pub open spec fn crlf() -> Seq<char> {
    seq!['\r', '\n']
}

/// The second character of a record tag: the second non-whitespace character
/// of the trimmed line, or a space when the line has only one.
pub open spec fn spec_tag2(t: Seq<char>) -> char
    recommends
        t.len() >= 1,
{
    let j = skip_spaces(t, 1);
    if j < t.len() {
        t[j]
    } else {
        ' '
    }
}

/// The payload of a record line: whatever follows the first plain space,
/// trimmed; empty when there is no space.
pub open spec fn spec_payload(t: Seq<char>) -> Seq<char> {
    let k = find_char(t, 0, ' ');
    if k < t.len() {
        trimmed(t.subrange(k + 1, t.len() as int))
    } else {
        Seq::empty()
    }
}

/// The payload of a variable-assignment record: the payload with the
/// variable name and equals sign (two characters) removed.
pub open spec fn spec_var_payload(d: Seq<char>) -> Seq<char> {
    if d.len() < 2 {
        Seq::empty()
    } else {
        d.subrange(2, d.len() as int)
    }
}

/// The record denoted by one line, or the exact failure message. The tag is
/// the first two non-whitespace characters; a leading `*` is a comment; an
/// unknown tag beginning with `A` is preserved verbatim; any other unknown
/// tag is a hard failure.
pub open spec fn spec_parse_record(line: Seq<char>) -> Result<RecordV, Seq<char>> {
    let t = trimmed(line);
    if t.len() == 0 {
        Ok(RecordV::Empty)
    } else {
        let t1 = t[0];
        let t2 = spec_tag2(t);
        let d = spec_payload(t);
        if t1 == '*' {
            Ok(RecordV::Comment)
        } else if t1 == 'A' && t2 == 'C' {
            match spec_parse_class(d) {
                Some(c) => Ok(RecordV::AirspaceClass(c)),
                None => Err("Invalid class: "@ + d),
            }
        } else if t1 == 'A' && t2 == 'N' {
            Ok(RecordV::AirspaceName(d))
        } else if t1 == 'A' && t2 == 'L' {
            match spec_parse_altitude(d) {
                Ok(a) => Ok(RecordV::LowerBound(a)),
                Err(e) => Err(alt_err_msg(e)),
            }
        } else if t1 == 'A' && t2 == 'H' {
            match spec_parse_altitude(d) {
                Ok(a) => Ok(RecordV::UpperBound(a)),
                Err(e) => Err(alt_err_msg(e)),
            }
        } else if t1 == 'A' && t2 == 'T' {
            Ok(RecordV::LabelPlacement)
        } else if t1 == 'A' && t2 == 'Y' {
            Ok(RecordV::AirspaceType(d))
        } else if t1 == 'A' && t2 == 'F' {
            Ok(RecordV::Frequency(d))
        } else if t1 == 'A' && t2 == 'G' {
            Ok(RecordV::CallSign(d))
        } else if t1 == 'A' && t2 == 'X' {
            match spec_parse_u16(d) {
                Some(c) => Ok(RecordV::TransponderCode(c as u16)),
                None => Err("Invalid transponder code: "@ + d),
            }
        } else if t1 == 'A' && t2 == 'A' {
            match spec_parse_activation(d) {
                Ok(t) => Ok(RecordV::ActivationTimes(t)),
                Err(m) => Err(m),
            }
        } else if t1 == 'A' {
            Ok(RecordV::UnknownExtension(t))
        } else if t1 == 'S' && t2 == 'P' {
            Ok(RecordV::Pen)
        } else if t1 == 'S' && t2 == 'B' {
            Ok(RecordV::Brush)
        } else if t1 == 'V' && t2 == 'X' {
            let vd = spec_var_payload(d);
            match spec_parse_coord(vd) {
                Some(c) => Ok(RecordV::VarX(c)),
                None => Err("Invalid coord: \""@ + vd + "\""@),
            }
        } else if t1 == 'V' && t2 == 'D' {
            let vd = spec_var_payload(d);
            match spec_parse_direction(vd) {
                Some(dir) => Ok(RecordV::VarD(dir)),
                None => Err("Invalid direction: "@ + vd),
            }
        } else if t1 == 'D' && t2 == 'P' {
            match spec_parse_coord(d) {
                Some(c) => Ok(RecordV::Point(c)),
                None => Err("Invalid coord: \""@ + d + "\""@),
            }
        } else if t1 == 'D' && t2 == 'C' {
            match spec_parse_decimal(d) {
                Some(m) => Ok(RecordV::CircleRadius(Decimal { milli: m as i64 })),
                None => Err("Invalid radius: "@ + d),
            }
        } else if t1 == 'D' && t2 == 'A' {
            spec_parse_arc_segment(d)
        } else if t1 == 'D' && t2 == 'B' {
            spec_parse_arc(d)
        } else {
            Err("Parse error (unexpected \""@ + seq![t1, t2] + "\")"@)
        }
    }
}

/// The arc-segment payload: three comma-separated decimal figures, the two
/// angles within zero and three hundred sixty degrees.
pub open spec fn spec_parse_arc_segment(d: Seq<char>) -> Result<RecordV, Seq<char>> {
    let k1 = find_char(d, 0, ',');
    let k2 = if k1 < d.len() {
        find_char(d, k1 + 1, ',')
    } else {
        d.len() as int
    };
    let k3 = if k2 < d.len() {
        find_char(d, k2 + 1, ',')
    } else {
        d.len() as int
    };
    if !(k1 < d.len() && k2 < d.len() && k3 == d.len()) {
        Err("Invalid arc segment data: "@ + d)
    } else {
        let p1 = spec_parse_decimal(trimmed(d.subrange(0, k1)));
        let p2 = spec_parse_decimal(trimmed(d.subrange(k1 + 1, k2)));
        let p3 = spec_parse_decimal(trimmed(d.subrange(k2 + 1, d.len() as int)));
        if p1 is None || p2 is None || p3 is None {
            Err("Invalid arc segment data: "@ + d)
        } else {
            let radius = p1->0;
            let a1 = p2->0;
            let a2 = p3->0;
            if a1 > 360000 {
                Err("Angle "@ + spec_render_decimal(a1) + " too large"@)
            } else if a1 < 0 {
                Err("Angle "@ + spec_render_decimal(a1) + " is negative"@)
            } else if a2 > 360000 {
                Err("Angle "@ + spec_render_decimal(a2) + " too large"@)
            } else if a2 < 0 {
                Err("Angle "@ + spec_render_decimal(a2) + " is negative"@)
            } else {
                Ok(
                    RecordV::ArcSegmentData {
                        radius: Decimal { milli: radius as i64 },
                        angle_start: Decimal { milli: a1 as i64 },
                        angle_end: Decimal { milli: a2 as i64 },
                    },
                )
            }
        }
    }
}

/// The arc payload: two comma-separated coordinate pairs.
pub open spec fn spec_parse_arc(d: Seq<char>) -> Result<RecordV, Seq<char>> {
    let k1 = find_char(d, 0, ',');
    let k2 = if k1 < d.len() {
        find_char(d, k1 + 1, ',')
    } else {
        d.len() as int
    };
    if !(k1 < d.len() && k2 == d.len()) {
        Err("Invalid arc data: "@ + d)
    } else {
        let p1 = spec_parse_coord(trimmed(d.subrange(0, k1)));
        let p2 = spec_parse_coord(trimmed(d.subrange(k1 + 1, d.len() as int)));
        if p1 is None || p2 is None {
            Err("Invalid arc data: "@ + d)
        } else {
            Ok(RecordV::ArcData { start: p1->0, end: p2->0 })
        }
    }
}

/// Arc-segment angles are accepted exactly on the closed range from zero to
/// three hundred sixty degrees: every accepted record's angles lie within
/// it, and a payload whose angle falls outside it is rejected.
pub proof fn lemma_arc_segment_angle_bounds(d: Seq<char>)
    ensures
        spec_parse_arc_segment(d) matches Ok(RecordV::ArcSegmentData {
            angle_start,
            angle_end,
            ..
        }) ==> 0 <= angle_start.milli <= 360000 && 0 <= angle_end.milli <= 360000,
{
}

/// The written line of each record, closed by the two-byte terminator;
/// comments, styling and the label hint write nothing.
pub open spec fn spec_render_record(r: RecordV) -> Seq<char> {
    match r {
        RecordV::AirspaceClass(c) => "AC "@ + spec_class_code(c) + crlf(),
        RecordV::AirspaceType(ty) => "AY "@ + ty + crlf(),
        RecordV::AirspaceName(n) => "AN "@ + n + crlf(),
        RecordV::LowerBound(a) => "AL "@ + spec_render_altitude(a) + crlf(),
        RecordV::UpperBound(a) => "AH "@ + spec_render_altitude(a) + crlf(),
        RecordV::Frequency(f) => "AF "@ + f + crlf(),
        RecordV::CallSign(s) => "AG "@ + s + crlf(),
        RecordV::TransponderCode(c) => "AX "@ + dec_rep(c as nat) + crlf(),
        RecordV::ActivationTimes(t) => "AA "@ + spec_render_activation(t) + crlf(),
        RecordV::UnknownExtension(e) => e + crlf(),
        RecordV::VarX(c) => "V X="@ + spec_render_coord(c) + crlf(),
        RecordV::VarD(d) => "V D="@ + (if d == Direction::Cw {
            seq!['+']
        } else {
            seq!['-']
        }) + crlf(),
        RecordV::Point(c) => "DP "@ + spec_render_coord(c) + crlf(),
        RecordV::CircleRadius(d) => "DC "@ + spec_render_decimal(d.milli as int) + crlf(),
        RecordV::ArcSegmentData { radius, angle_start, angle_end } => "DA "@ + spec_render_decimal(
            radius.milli as int,
        ) + ", "@ + spec_render_decimal(angle_start.milli as int) + ", "@ + spec_render_decimal(
            angle_end.milli as int,
        ) + crlf(),
        RecordV::ArcData { start, end } => "DB "@ + spec_render_coord(start) + ", "@
            + spec_render_coord(end) + crlf(),
        RecordV::Empty => crlf(),
        RecordV::Comment => Seq::empty(),
        RecordV::LabelPlacement => Seq::empty(),
        RecordV::Pen => Seq::empty(),
        RecordV::Brush => Seq::empty(),
    }
}

impl<'a> Record<'a> {
    /// Returns true if this record is a header record (`A*` records that
    /// define airspace properties).
    pub fn is_header(&self) -> (r: bool)
        ensures
            r == (self@ matches RecordV::AirspaceClass(_) || self@ matches RecordV::AirspaceName(_)
                || self@ matches RecordV::LowerBound(_) || self@ matches RecordV::UpperBound(_)
                || self@ matches RecordV::AirspaceType(_) || self@ matches RecordV::Frequency(_)
                || self@ matches RecordV::CallSign(_) || self@ matches RecordV::TransponderCode(_)
                || self@ matches RecordV::ActivationTimes(_) || self@
                matches RecordV::UnknownExtension(_)),
    {
        match self {
            Record::AirspaceClass(_) => true,
            Record::AirspaceName(_) => true,
            Record::LowerBound(_) => true,
            Record::UpperBound(_) => true,
            Record::AirspaceType(_) => true,
            Record::Frequency(_) => true,
            Record::CallSign(_) => true,
            Record::TransponderCode(_) => true,
            Record::ActivationTimes(_) => true,
            Record::UnknownExtension(_) => true,
            _ => false,
        }
    }

    /// Recognizes one line. The first two non-whitespace characters form the
    /// tag; the remainder after the first space is the payload.
    pub fn parse(line: &'a str) -> (r: Result<Record<'a>, String>)
        ensures
            match r {
                Ok(rec) => spec_parse_record(line@) == Ok::<RecordV, Seq<char>>(rec@)
                    && spec_record_wf(rec@),
                Err(m) => spec_parse_record(line@) is Err && m@ == spec_parse_record(
                    line@,
                )->Err_0,
            },
    {
        let parts = match split_line(line) {
            None => {
                return Ok(Record::Empty);
            },
            Some(p) => p,
        };
        let (t1, t2, data, whole) = parts;
        if t1 == '*' {
            Ok(Record::Comment)
        } else if t1 == 'A' && t2 == 'C' {
            match Class::parse(data) {
                Ok(c) => Ok(Record::AirspaceClass(c)),
                Err(m) => Err(m),
            }
        } else if t1 == 'A' && t2 == 'N' {
            Ok(Record::AirspaceName(data))
        } else if t1 == 'A' && t2 == 'L' {
            match Altitude::parse(data) {
                Ok(a) => Ok(Record::LowerBound(a)),
                Err(m) => Err(m),
            }
        } else if t1 == 'A' && t2 == 'H' {
            match Altitude::parse(data) {
                Ok(a) => Ok(Record::UpperBound(a)),
                Err(m) => Err(m),
            }
        } else if t1 == 'A' && t2 == 'T' {
            Ok(Record::LabelPlacement)
        } else if t1 == 'A' && t2 == 'Y' {
            Ok(Record::AirspaceType(data))
        } else if t1 == 'A' && t2 == 'F' {
            Ok(Record::Frequency(data))
        } else if t1 == 'A' && t2 == 'G' {
            Ok(Record::CallSign(data))
        } else if t1 == 'A' && t2 == 'X' {
            match parse_u16_exact(data) {
                Some(c) => Ok(Record::TransponderCode(c)),
                None => Err(String::from_str("Invalid transponder code: ").concat(data)),
            }
        } else if t1 == 'A' && t2 == 'A' {
            match ActivationTimes::from_str(data) {
                Ok(times) => Ok(Record::ActivationTimes(times)),
                Err(m) => Err(m),
            }
        } else if t1 == 'A' {
            Ok(Record::UnknownExtension(whole))
        } else if t1 == 'S' && t2 == 'P' {
            Ok(Record::Pen)
        } else if t1 == 'S' && t2 == 'B' {
            Ok(Record::Brush)
        } else if t1 == 'V' && t2 == 'X' {
            match Coord::parse(var_payload(data)) {
                Ok(c) => Ok(Record::VarX(c)),
                Err(m) => Err(m),
            }
        } else if t1 == 'V' && t2 == 'D' {
            match Direction::parse(var_payload(data)) {
                Ok(dir) => Ok(Record::VarD(dir)),
                Err(m) => Err(m),
            }
        } else if t1 == 'D' && t2 == 'P' {
            match Coord::parse(data) {
                Ok(c) => Ok(Record::Point(c)),
                Err(m) => Err(m),
            }
        } else if t1 == 'D' && t2 == 'C' {
            match Decimal::parse(data) {
                Some(radius) => Ok(Record::CircleRadius(radius)),
                None => Err(String::from_str("Invalid radius: ").concat(data)),
            }
        } else if t1 == 'D' && t2 == 'A' {
            parse_arc_segment(data)
        } else if t1 == 'D' && t2 == 'B' {
            parse_arc(data)
        } else {
            let mut msg = String::from_str("Parse error (unexpected \"");
            crate::chars::push_char(&mut msg, t1);
            crate::chars::push_char(&mut msg, t2);
            let out = msg.concat("\")");
            assert(out@ =~= "Parse error (unexpected \""@ + seq![t1, t2] + "\")"@);
            Err(out)
        }
    }
}

/// Splits a line into its two tag characters, its payload and its whole
/// trimmed text; `None` for a blank line.
fn split_line<'a>(line: &'a str) -> (r: Option<(char, char, &'a str, &'a str)>)
    ensures
        match r {
            None => trimmed(line@).len() == 0,
            Some((t1, t2, data, whole)) => {
                let t = trimmed(line@);
                &&& t.len() > 0
                &&& t1 == t[0]
                &&& t2 == spec_tag2(t)
                &&& data@ == spec_payload(t)
                &&& whole@ == t
            },
        },
{
    let v = chars_of(line);
    let vn = v.len();
    let a0 = exec_skip_spaces(&v, 0);
    let b0 = crate::chars::exec_rskip_spaces(&v, vn);
    let t = trim_vec(&v);
    let n = t.len();
    if n == 0 {
        return None;
    }
    assert(a0 < b0 && t@ == v@.subrange(a0 as int, b0 as int)) by {
        if a0 > b0 {
            assert(trimmed(v@) =~= Seq::<char>::empty());
        }
    }
    let ghost ts = t@;
    let t1 = t[0];
    let j = exec_skip_spaces(&t, 1);
    let t2: char = if j < n {
        t[j]
    } else {
        ' '
    };
    assert(t2 == spec_tag2(ts));
    let k = exec_find_char(&t, 0, ' ');
    // the payload: the trimmed line has no trailing whitespace, so the
    // payload runs to its end
    let (d0, d1): (usize, usize) = if k < n {
        let dvec = crate::chars::subvec(&t, k + 1, n);
        let arel = exec_skip_spaces(&dvec, 0);
        (k + 1 + arel, n)
    } else {
        (n, n)
    };
    assert(d0 <= d1 <= n);
    let data = line.substring_char(a0 + d0, a0 + d1);
    proof {
        assert(data@ =~= ts.subrange(d0 as int, d1 as int));
        crate::chars::lemma_trimmed(v@);
        if k < n {
            let sub = ts.subrange(k as int + 1, n as int);
            crate::chars::lemma_find_char(ts, 0, ' ');
            assert(ts[k as int] == ' ');
            assert(k + 1 < n) by {
                if k + 1 == n {
                    assert(crate::chars::is_space(ts.last()));
                }
            }
            assert(sub.last() == ts.last());
            crate::chars::lemma_rskip_spaces_is(sub, sub.len() as int, sub.len() as int);
            assert(spec_payload(ts) == trimmed(sub));
            assert(trimmed(sub) == sub.subrange(skip_spaces(sub, 0), sub.len() as int)) by {
                crate::chars::lemma_skip_spaces(sub, 0);
            }
            assert(ts.subrange(d0 as int, d1 as int) =~= sub.subrange(
                skip_spaces(sub, 0),
                sub.len() as int,
            ));
        } else {
            crate::chars::lemma_find_char(ts, 0, ' ');
            assert(spec_payload(ts) == Seq::<char>::empty());
            assert(ts.subrange(d0 as int, d1 as int) =~= Seq::<char>::empty());
        }
        assert(data@ == spec_payload(ts));
    }
    let whole = line.substring_char(a0, b0);
    assert(whole@ =~= ts);
    Some((t1, t2, data, whole))
}

/// The payload of a variable assignment, with the two-character variable
/// name and equals sign removed.
fn var_payload<'a>(data: &'a str) -> (r: &'a str)
    ensures
        r@ == spec_var_payload(data@),
{
    let n = data.unicode_len();
    let s2: usize = if n < 2 {
        n
    } else {
        2
    };
    let r = data.substring_char(s2, n);
    assert(r@ =~= spec_var_payload(data@));
    r
}

/// The two-byte line terminator, as a string slice.
pub fn crlf_str() -> (r: &'static str)
    ensures
        r@ == crlf(),
{
    proof {
        reveal_strlit("\r\n");
        assert("\r\n"@ =~= crlf());
    }
    "\r\n"
}

impl<'a> Record<'a> {
    /// Writes the record as one line of the format, closed by the two-byte
    /// terminator; the ignored record kinds write nothing.
    pub fn write(self) -> (r: String)
        requires
            spec_record_wf(self@),
        ensures
            r@ == spec_render_record(self@),
    {
        match self {
            Record::AirspaceClass(class) => String::from_str("AC ").concat(class.to_str()).concat(
                crlf_str(),
            ),
            Record::AirspaceType(ty) => String::from_str("AY ").concat(ty).concat(crlf_str()),
            Record::AirspaceName(name) => String::from_str("AN ").concat(name).concat(crlf_str()),
            Record::LowerBound(alt) => String::from_str("AL ").concat(alt.write().as_str()).concat(
                crlf_str(),
            ),
            Record::UpperBound(alt) => String::from_str("AH ").concat(alt.write().as_str()).concat(
                crlf_str(),
            ),
            Record::Frequency(freq) => String::from_str("AF ").concat(freq).concat(crlf_str()),
            Record::CallSign(sign) => String::from_str("AG ").concat(sign).concat(crlf_str()),
            Record::TransponderCode(code) => String::from_str("AX ").concat(
                crate::chars::u64_string(code as u64).as_str(),
            ).concat(crlf_str()),
            Record::ActivationTimes(times) => String::from_str("AA ").concat(
                times.write().as_str(),
            ).concat(crlf_str()),
            Record::UnknownExtension(ext) => String::from_str(ext).concat(crlf_str()),
            Record::VarX(coord) => String::from_str("V X=").concat(coord.write().as_str()).concat(
                crlf_str(),
            ),
            Record::VarD(direction) => {
                let dir_str: &'static str = match direction {
                    Direction::Cw => "+",
                    Direction::Ccw => "-",
                };
                proof {
                    reveal_strlit("+");
                    reveal_strlit("-");
                    assert("+"@ =~= seq!['+']);
                    assert("-"@ =~= seq!['-']);
                }
                String::from_str("V D=").concat(dir_str).concat(crlf_str())
            },
            Record::Point(coord) => String::from_str("DP ").concat(coord.write().as_str()).concat(
                crlf_str(),
            ),
            Record::CircleRadius(radius) => String::from_str("DC ").concat(
                radius.write().as_str(),
            ).concat(crlf_str()),
            Record::ArcSegmentData { radius, angle_start, angle_end } => String::from_str(
                "DA ",
            ).concat(radius.write().as_str()).concat(", ").concat(
                angle_start.write().as_str(),
            ).concat(", ").concat(angle_end.write().as_str()).concat(crlf_str()),
            Record::ArcData { start, end } => String::from_str("DB ").concat(
                start.write().as_str(),
            ).concat(", ").concat(end.write().as_str()).concat(crlf_str()),
            Record::Empty => String::from_str(crlf_str()),
            Record::Comment => String::new(),
            Record::LabelPlacement => String::new(),
            Record::Pen => String::new(),
            Record::Brush => String::new(),
        }
    }
}

/// An unsigned 16-bit integer: optional `+`, then digits.
fn parse_u16_exact(data: &str) -> (r: Option<u16>)
    ensures
        match r {
            Some(c) => spec_parse_u16(data@) == Some(c as int),
            None => spec_parse_u16(data@) is None,
        },
{
    let v = chars_of(data);
    let n = v.len();
    let d0: usize = if n >= 1 && v[0] == '+' {
        1
    } else {
        0
    };
    let ghost d = if data@.len() >= 1 && data@[0] == '+' {
        data@.subrange(1, data@.len() as int)
    } else {
        data@
    };
    assert(d =~= v@.subrange(d0 as int, n as int));
    if d0 == n {
        return None;
    }
    if !all_digits_range(&v, d0, n) {
        return None;
    }
    match parse_digits_capped(&v, d0, n, 65535) {
        Some(u) => Some(u as u16),
        None => None,
    }
}

/// The arc-segment payload: three comma-separated decimals with validated
/// angles.
fn parse_arc_segment<'a>(data: &str) -> (r: Result<Record<'a>, String>)
    ensures
        match r {
            Ok(rec) => spec_parse_arc_segment(data@) == Ok::<RecordV, Seq<char>>(rec@)
                && spec_record_wf(rec@),
            Err(m) => spec_parse_arc_segment(data@) is Err && m@ == spec_parse_arc_segment(
                data@,
            )->Err_0,
        },
{
    let v = chars_of(data);
    let n = v.len();
    let k1 = exec_find_char(&v, 0, ',');
    let k2: usize = if k1 < n {
        exec_find_char(&v, k1 + 1, ',')
    } else {
        n
    };
    let k3: usize = if k2 < n {
        exec_find_char(&v, k2 + 1, ',')
    } else {
        n
    };
    if !(k1 < n && k2 < n && k3 == n) {
        return Err(String::from_str("Invalid arc segment data: ").concat(data));
    }
    let p1 = parse_decimal_part(&v, 0, k1);
    let p2 = parse_decimal_part(&v, k1 + 1, k2);
    let p3 = parse_decimal_part(&v, k2 + 1, n);
    let radius = match p1 {
        Some(x) => x,
        None => {
            return Err(String::from_str("Invalid arc segment data: ").concat(data));
        },
    };
    let a1 = match p2 {
        Some(x) => x,
        None => {
            return Err(String::from_str("Invalid arc segment data: ").concat(data));
        },
    };
    let a2 = match p3 {
        Some(x) => x,
        None => {
            return Err(String::from_str("Invalid arc segment data: ").concat(data));
        },
    };
    if a1.milli > 360000 {
        return Err(
            String::from_str("Angle ").concat(a1.write().as_str()).concat(" too large"),
        );
    }
    if a1.milli < 0 {
        return Err(
            String::from_str("Angle ").concat(a1.write().as_str()).concat(" is negative"),
        );
    }
    if a2.milli > 360000 {
        return Err(
            String::from_str("Angle ").concat(a2.write().as_str()).concat(" too large"),
        );
    }
    if a2.milli < 0 {
        return Err(
            String::from_str("Angle ").concat(a2.write().as_str()).concat(" is negative"),
        );
    }
    Ok(Record::ArcSegmentData { radius, angle_start: a1, angle_end: a2 })
}

/// The arc payload: two comma-separated coordinate pairs.
fn parse_arc<'a>(data: &str) -> (r: Result<Record<'a>, String>)
    ensures
        match r {
            Ok(rec) => spec_parse_arc(data@) == Ok::<RecordV, Seq<char>>(rec@) && spec_record_wf(
                rec@,
            ),
            Err(m) => spec_parse_arc(data@) is Err && m@ == spec_parse_arc(data@)->Err_0,
        },
{
    let v = chars_of(data);
    let n = v.len();
    let k1 = exec_find_char(&v, 0, ',');
    let k2: usize = if k1 < n {
        exec_find_char(&v, k1 + 1, ',')
    } else {
        n
    };
    if !(k1 < n && k2 == n) {
        return Err(String::from_str("Invalid arc data: ").concat(data));
    }
    let p1 = parse_coord_part(&v, 0, k1);
    let p2 = parse_coord_part(&v, k1 + 1, n);
    match (p1, p2) {
        (Some(start), Some(end)) => Ok(Record::ArcData { start, end }),
        _ => Err(String::from_str("Invalid arc data: ").concat(data)),
    }
}

/// One comma-separated decimal part, trimmed and read.
fn parse_decimal_part(v: &Vec<char>, from: usize, to: usize) -> (r: Option<Decimal>)
    requires
        from <= to <= v@.len(),
    ensures
        match r {
            Some(d) => spec_parse_decimal(trimmed(v@.subrange(from as int, to as int))) == Some(
                d.milli as int,
            ) && d.wf(),
            None => spec_parse_decimal(trimmed(v@.subrange(from as int, to as int))) is None,
        },
{
    let sub = crate::chars::subvec(v, from, to);
    let tsub = trim_vec(&sub);
    let s = crate::chars::string_of(&tsub);
    Decimal::parse(s.as_str())
}

/// One comma-separated coordinate part, trimmed and read.
fn parse_coord_part(v: &Vec<char>, from: usize, to: usize) -> (r: Option<Coord>)
    requires
        from <= to <= v@.len(),
    ensures
        match r {
            Some(c) => spec_parse_coord(trimmed(v@.subrange(from as int, to as int))) == Some(c)
                && c.wf(),
            None => spec_parse_coord(trimmed(v@.subrange(from as int, to as int))) is None,
        },
{
    let sub = crate::chars::subvec(v, from, to);
    let tsub = trim_vec(&sub);
    let s = crate::chars::string_of(&tsub);
    match Coord::parse(s.as_str()) {
        Ok(c) => Some(c),
        Err(_) => None,
    }
}

/// The coordinate and decimal magnitudes a record's writer relies on.
pub open spec fn spec_record_wf(r: RecordV) -> bool {
    match r {
        RecordV::VarX(c) => c.wf(),
        RecordV::Point(c) => c.wf(),
        RecordV::CircleRadius(d) => d.wf(),
        RecordV::ArcSegmentData { radius, angle_start, angle_end } => radius.wf()
            && angle_start.wf() && angle_end.wf(),
        RecordV::ArcData { start, end } => start.wf() && end.wf(),
        _ => true,
    }
}

} // verus!
