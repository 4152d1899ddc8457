//! The airspace assembler: a stateful accumulator that consumes one line at
//! a time, enforces the field-once and geometry-kind rules, detects airspace
//! boundaries at class declarations and emits complete airspaces.
use vstd::prelude::*;

use crate::activations::ActivationTimes;
use crate::altitude::{AltV, Altitude};
use crate::classes::Class;
use crate::coords::Coord;
use crate::geometry::{Arc, ArcSegment, Direction, GeomV, Geometry, PolygonSegment};
use crate::record::{spec_parse_record, Record, RecordV};
use crate::{spec_airspace_wf, Airspace, AirspaceV};

verus! {

broadcast use vstd::string::group_string_axioms;

/// The accumulator for one airspace under assembly. Every once-only field
/// may be set at most once; the two carry-over variables may be overwritten
/// freely and are visible to later geometry records only.
pub struct Parser {
    name: Option<String>,
    class: Option<Class>,
    lower_bound: Option<Altitude>,
    upper_bound: Option<Altitude>,
    type_: Option<String>,
    frequency: Option<String>,
    call_sign: Option<String>,
    transponder_code: Option<u16>,
    activation_times: Option<ActivationTimes>,
    geom: Option<Geometry>,
    var_x: Option<Coord>,
    var_d: Option<Direction>,
}

/// Mathematical image of the accumulator.
pub struct AccV {
    pub name: Option<Seq<char>>,
    pub class: Option<Class>,
    pub lower_bound: Option<AltV>,
    pub upper_bound: Option<AltV>,
    pub type_: Option<Seq<char>>,
    pub frequency: Option<Seq<char>>,
    pub call_sign: Option<Seq<char>>,
    pub transponder_code: Option<u16>,
    pub activation_times: Option<ActivationTimes>,
    pub geom: Option<GeomV>,
    pub var_x: Option<Coord>,
    pub var_d: Option<Direction>,
}

impl View for Parser {
    type V = AccV;

    closed spec fn view(&self) -> AccV {
        AccV {
            name: match &self.name {
                Some(s) => Some(s@),
                None => None,
            },
            class: self.class,
            lower_bound: match &self.lower_bound {
                Some(a) => Some(a@),
                None => None,
            },
            upper_bound: match &self.upper_bound {
                Some(a) => Some(a@),
                None => None,
            },
            type_: match &self.type_ {
                Some(s) => Some(s@),
                None => None,
            },
            frequency: match &self.frequency {
                Some(s) => Some(s@),
                None => None,
            },
            call_sign: match &self.call_sign {
                Some(s) => Some(s@),
                None => None,
            },
            transponder_code: self.transponder_code,
            activation_times: self.activation_times,
            geom: match &self.geom {
                Some(g) => Some(g@),
                None => None,
            },
            var_x: self.var_x,
            var_d: self.var_d,
        }
    }
}

/// The accumulator before any record of an airspace was consumed.
pub open spec fn acc_empty() -> AccV {
    AccV {
        name: None,
        class: None,
        lower_bound: None,
        upper_bound: None,
        type_: None,
        frequency: None,
        call_sign: None,
        transponder_code: None,
        activation_times: None,
        geom: None,
        var_x: None,
        var_d: None,
    }
}

impl AccV {
    /// The coordinate and decimal magnitudes the accumulator's geometry and
    /// centerpoint obey.
    pub open spec fn wf(&self) -> bool {
        &&& match self.geom {
            Some(g) => g.wf(),
            None => true,
        }
        &&& match self.var_x {
            Some(c) => c.wf(),
            None => true,
        }
    }
}

/// Consuming one record into the accumulator: once-only fields reject a
/// second value naming the field, carry-over variables overwrite freely, and
/// geometry records respect the exclusive geometry kind.
pub open spec fn spec_step(st: AccV, rec: RecordV) -> Result<AccV, Seq<char>> {
    match rec {
        RecordV::Empty => Ok(st),
        RecordV::Comment => Ok(st),
        RecordV::LabelPlacement => Ok(st),
        RecordV::Pen => Ok(st),
        RecordV::Brush => Ok(st),
        RecordV::UnknownExtension(_) => Ok(st),
        RecordV::AirspaceClass(c) => if st.class is Some {
            Err("Could not set class (already defined)"@)
        } else {
            Ok(AccV { class: Some(c), ..st })
        },
        RecordV::AirspaceName(n) => if st.name is Some {
            Err("Could not set name (already defined)"@)
        } else {
            Ok(AccV { name: Some(n), ..st })
        },
        RecordV::LowerBound(a) => if st.lower_bound is Some {
            Err("Could not set lower_bound (already defined)"@)
        } else {
            Ok(AccV { lower_bound: Some(a), ..st })
        },
        RecordV::UpperBound(a) => if st.upper_bound is Some {
            Err("Could not set upper_bound (already defined)"@)
        } else {
            Ok(AccV { upper_bound: Some(a), ..st })
        },
        RecordV::AirspaceType(t) => if st.type_ is Some {
            Err("Could not set type (already defined)"@)
        } else {
            Ok(AccV { type_: Some(t), ..st })
        },
        RecordV::Frequency(f) => if st.frequency is Some {
            Err("Could not set frequency (already defined)"@)
        } else {
            Ok(AccV { frequency: Some(f), ..st })
        },
        RecordV::CallSign(s) => if st.call_sign is Some {
            Err("Could not set call_sign (already defined)"@)
        } else {
            Ok(AccV { call_sign: Some(s), ..st })
        },
        RecordV::TransponderCode(c) => if st.transponder_code is Some {
            Err("Could not set transponder_code (already defined)"@)
        } else {
            Ok(AccV { transponder_code: Some(c), ..st })
        },
        RecordV::ActivationTimes(t) => if st.activation_times is Some {
            Err("Could not set activation_times (already defined)"@)
        } else {
            Ok(AccV { activation_times: Some(t), ..st })
        },
        RecordV::VarX(c) => Ok(AccV { var_x: Some(c), ..st }),
        RecordV::VarD(d) => Ok(AccV { var_d: Some(d), ..st }),
        RecordV::Point(c) => spec_append_segment(st, PolygonSegment::Point(c)),
        RecordV::CircleRadius(radius) => match (st.geom, st.var_x) {
            (Option::None, Option::Some(centerpoint)) => Ok(
                AccV { geom: Some(GeomV::Circle { centerpoint, radius }), ..st },
            ),
            (Option::Some(_), _) => Err("Geometry already set"@),
            (Option::None, Option::None) => Err("Centerpoint missing"@),
        },
        RecordV::ArcSegmentData { radius, angle_start, angle_end } => match st.var_x {
            Option::None => Err("Centerpoint missing"@),
            Option::Some(centerpoint) => spec_append_segment(
                st,
                PolygonSegment::ArcSegment(
                    ArcSegment {
                        centerpoint,
                        radius,
                        angle_start,
                        angle_end,
                        direction: spec_var_d_or_default(st),
                    },
                ),
            ),
        },
        RecordV::ArcData { start, end } => match st.var_x {
            Option::None => Err("Centerpoint missing"@),
            Option::Some(centerpoint) => spec_append_segment(
                st,
                PolygonSegment::Arc(
                    Arc { centerpoint, start, end, direction: spec_var_d_or_default(st) },
                ),
            ),
        },
    }
}

/// The carry-over direction, clockwise when none was set.
pub open spec fn spec_var_d_or_default(st: AccV) -> Direction {
    match st.var_d {
        Some(d) => d,
        None => Direction::Cw,
    }
}

/// Appending a segment starts a polygon or grows one; a circle refuses it.
pub open spec fn spec_append_segment(st: AccV, seg: PolygonSegment) -> Result<AccV, Seq<char>> {
    match st.geom {
        Option::None => Ok(AccV { geom: Some(GeomV::Polygon { segments: seq![seg] }), ..st }),
        Option::Some(GeomV::Polygon { segments }) => Ok(
            AccV { geom: Some(GeomV::Polygon { segments: segments.push(seg) }), ..st },
        ),
        Option::Some(GeomV::Circle { .. }) => Err("Cannot add a point to a circle"@),
    }
}

/// Finishing an accumulator whose class is set: the required fields must all
/// be present, else the failure cites the airspace's name if already known.
pub open spec fn spec_finish_airspace(st: AccV) -> Result<AirspaceV, Seq<char>>
    recommends
        st.class is Some,
{
    if st.name is None {
        Err("Missing name"@)
    } else if st.lower_bound is None {
        Err("Missing lower bound for '"@ + st.name->0 + "'"@)
    } else if st.upper_bound is None {
        Err("Missing upper bound for '"@ + st.name->0 + "'"@)
    } else if st.geom is None {
        Err("Missing geom for '"@ + st.name->0 + "'"@)
    } else {
        Ok(
            AirspaceV {
                name: st.name->0,
                class: st.class->0,
                type_: st.type_,
                lower_bound: st.lower_bound->0,
                upper_bound: st.upper_bound->0,
                geom: st.geom->0,
                frequency: st.frequency,
                call_sign: st.call_sign,
                transponder_code: st.transponder_code,
                activation_times: st.activation_times,
            },
        )
    }
}

/// Leading byte-order marks are stripped before recognition.
pub open spec fn skip_bom(s: Seq<char>, i: int) -> int
    recommends
        0 <= i <= s.len(),
    decreases s.len() - i,
{
    if i < s.len() && s[i] == '\u{feff}' {
        skip_bom(s, i + 1)
    } else {
        i
    }
}

/// The line as the recognizer sees it: without leading byte-order marks.
pub open spec fn bom_stripped(s: Seq<char>) -> Seq<char> {
    s.subrange(skip_bom(s, 0), s.len() as int)
}

/// Feeding one line to the accumulator: a class declaration while an
/// airspace is in progress first finishes and yields that airspace, then
/// seeds a fresh accumulator with the new class; any other record is
/// consumed in place.
pub open spec fn spec_push(st: AccV, line: Seq<char>) -> Result<
    (AccV, Option<AirspaceV>),
    Seq<char>,
> {
    match spec_parse_record(bom_stripped(line)) {
        Err(m) => Err(m),
        Ok(rec) => if rec matches RecordV::AirspaceClass(c) && st.class is Some {
            match spec_finish_airspace(st) {
                Err(m) => Err(m),
                Ok(a) => Ok((AccV { class: Some(rec->AirspaceClass_0), ..acc_empty() }, Some(a))),
            }
        } else {
            match spec_step(st, rec) {
                Err(m) => Err(m),
                Ok(st2) => Ok((st2, None)),
            }
        },
    }
}

/// Finishing at end of input: an accumulator with a class yields its
/// airspace; an empty one yields nothing.
pub open spec fn spec_finish(st: AccV) -> Result<(AccV, Option<AirspaceV>), Seq<char>> {
    if st.class is Some {
        match spec_finish_airspace(st) {
            Err(m) => Err(m),
            Ok(a) => Ok((acc_empty(), Some(a))),
        }
    } else {
        Ok((acc_empty(), None))
    }
}

/// Running the assembler over several lines in order, from a given state:
/// the airspaces come out in input order.
pub open spec fn spec_run(st: AccV, lines: Seq<Seq<char>>) -> Result<
    (AccV, Seq<AirspaceV>),
    Seq<char>,
>
    decreases lines.len(),
{
    if lines.len() == 0 {
        Ok((st, Seq::empty()))
    } else {
        match spec_run(st, lines.drop_last()) {
            Err(m) => Err(m),
            Ok((st2, asps)) => match spec_push(st2, lines.last()) {
                Err(m) => Err(m),
                Ok((st3, opt)) => Ok(
                    (
                        st3,
                        match opt {
                            Some(a) => asps.push(a),
                            None => asps,
                        },
                    ),
                ),
            },
        }
    }
}

/// A whole input, line by line, finished at the end.
pub open spec fn spec_parse_lines(lines: Seq<Seq<char>>) -> Result<Seq<AirspaceV>, Seq<char>> {
    match spec_run(acc_empty(), lines) {
        Err(m) => Err(m),
        Ok((st, asps)) => match spec_finish(st) {
            Err(m) => Err(m),
            Ok((_, opt)) => Ok(
                match opt {
                    Some(a) => asps.push(a),
                    None => asps,
                },
            ),
        },
    }
}

/// Whether a line is a class declaration: the only reliable airspace
/// boundary.
pub open spec fn is_class_line(line: Seq<char>) -> bool {
    spec_parse_record(bom_stripped(line)) matches Ok(RecordV::AirspaceClass(_))
}

/// How many class-declaration lines an input holds.
pub open spec fn count_class_lines(lines: Seq<Seq<char>>) -> int
    decreases lines.len(),
{
    if lines.len() == 0 {
        0
    } else {
        count_class_lines(lines.drop_last()) + (if is_class_line(lines.last()) {
            1int
        } else {
            0int
        })
    }
}

/// Consuming any record that is not a class declaration leaves the class as
/// it was.
proof fn lemma_step_preserves_class(st: AccV, rec: RecordV)
    requires
        !(rec matches RecordV::AirspaceClass(_)),
        spec_step(st, rec) is Ok,
    ensures
        spec_step(st, rec)->Ok_0.class == st.class,
{
    match rec {
        RecordV::Point(c) => {},
        RecordV::ArcSegmentData { radius, angle_start, angle_end } => {},
        RecordV::ArcData { start, end } => {},
        _ => {},
    }
}

/// While the assembler runs, the airspaces already out plus the one under
/// assembly account exactly for the class-declaration lines seen.
proof fn lemma_run_count(st: AccV, lines: Seq<Seq<char>>)
    requires
        st.class is None,
        spec_run(st, lines) is Ok,
    ensures
        ({
            let (st2, asps) = spec_run(st, lines)->Ok_0;
            asps.len() + (if st2.class is Some {
                1int
            } else {
                0int
            }) == count_class_lines(lines)
        }),
    decreases lines.len(),
{
    if lines.len() == 0 {
    } else {
        lemma_run_count(st, lines.drop_last());
        let (st2, asps) = spec_run(st, lines.drop_last())->Ok_0;
        let line = lines.last();
        match spec_parse_record(bom_stripped(line)) {
            Err(_) => {},
            Ok(rec) => {
                if rec matches RecordV::AirspaceClass(c) {
                    if st2.class is Some {
                        // a boundary: one airspace out, the new one started
                    } else {
                        // the first class of the airspace under assembly
                    }
                } else {
                    lemma_step_preserves_class(st2, rec);
                }
            },
        }
    }
}

/// Airspace count: when a whole input parses, it yields exactly as many
/// airspaces as it has class-declaration lines, in input order.
pub proof fn lemma_airspace_count(lines: Seq<Seq<char>>)
    requires
        spec_parse_lines(lines) is Ok,
    ensures
        spec_parse_lines(lines)->Ok_0.len() == count_class_lines(lines),
{
    lemma_run_count(acc_empty(), lines);
}

/// The classes declared by the class-declaration lines of an input, in
/// input order.
pub open spec fn declared_classes(lines: Seq<Seq<char>>) -> Seq<Class>
    decreases lines.len(),
{
    if lines.len() == 0 {
        Seq::empty()
    } else {
        let head = declared_classes(lines.drop_last());
        match spec_parse_record(bom_stripped(lines.last())) {
            Ok(RecordV::AirspaceClass(c)) => head.push(c),
            _ => head,
        }
    }
}

/// The classes of the airspaces already out, with the one under assembly
/// last, are the declared classes seen so far, in order.
proof fn lemma_run_classes(st: AccV, lines: Seq<Seq<char>>)
    requires
        st.class is None,
        spec_run(st, lines) is Ok,
    ensures
        ({
            let (st2, asps) = spec_run(st, lines)->Ok_0;
            asps.map_values(|a: AirspaceV| a.class) + (match st2.class {
                Some(c) => seq![c],
                None => Seq::empty(),
            }) == declared_classes(lines)
        }),
    decreases lines.len(),
{
    let classes_of = |a: AirspaceV| a.class;
    if lines.len() == 0 {
        assert(spec_run(st, lines)->Ok_0.1.map_values(classes_of) =~= Seq::<Class>::empty());
        assert(declared_classes(lines) =~= Seq::<Class>::empty());
    } else {
        lemma_run_classes(st, lines.drop_last());
        let (st2, asps) = spec_run(st, lines.drop_last())->Ok_0;
        let line = lines.last();
        let (st3, asps3) = spec_run(st, lines)->Ok_0;
        match spec_parse_record(bom_stripped(line)) {
            Err(_) => {},
            Ok(rec) => {
                if rec matches RecordV::AirspaceClass(c) {
                    if st2.class is Some {
                        // a boundary: the finished airspace carries the old
                        // class; the new accumulator carries the new one
                        let a = spec_finish_airspace(st2)->Ok_0;
                        assert(a.class == st2.class->0);
                        assert(asps3 == asps.push(a));
                        assert(asps3.map_values(classes_of) =~= asps.map_values(classes_of).push(
                            a.class,
                        ));
                        assert(asps3.map_values(classes_of) + seq![st3.class->0]
                            =~= declared_classes(lines));
                    } else {
                        assert(asps3.map_values(classes_of) + seq![st3.class->0]
                            =~= declared_classes(lines));
                    }
                } else {
                    lemma_step_preserves_class(st2, rec);
                    assert(asps3 == asps);
                    match st3.class {
                        Some(c2) => {
                            assert(asps3.map_values(classes_of) + seq![c2] =~= declared_classes(
                                lines,
                            ));
                        },
                        None => {
                            assert(asps3.map_values(classes_of) + Seq::<Class>::empty()
                                =~= declared_classes(lines));
                        },
                    }
                }
            },
        }
    }
}

/// Input order: when a whole input parses, the airspaces carry the declared
/// classes in the order their class-declaration lines stand in the input.
pub proof fn lemma_airspaces_in_input_order(lines: Seq<Seq<char>>)
    requires
        spec_parse_lines(lines) is Ok,
    ensures
        spec_parse_lines(lines)->Ok_0.map_values(|a: AirspaceV| a.class) == declared_classes(
            lines,
        ),
{
    let classes_of = |a: AirspaceV| a.class;
    lemma_run_classes(acc_empty(), lines);
    let (st, asps) = spec_run(acc_empty(), lines)->Ok_0;
    match spec_finish(st)->Ok_0.1 {
        Some(a) => {
            assert(a.class == st.class->0);
            assert(spec_parse_lines(lines)->Ok_0 == asps.push(a));
            assert(asps.push(a).map_values(classes_of) =~= asps.map_values(classes_of).push(
                a.class,
            ));
            assert(asps.map_values(classes_of).push(a.class) =~= asps.map_values(classes_of)
                + seq![a.class]);
        },
        None => {
            assert(asps.map_values(classes_of) + Seq::<Class>::empty() =~= asps.map_values(
                classes_of,
            ));
        },
    }
}

/// Duplicate once-only field: a record that would set an already-set
/// once-only field is rejected, naming the field; the accumulator is
/// unchanged by the failure.
pub proof fn lemma_duplicate_field_rejected(st: AccV)
    ensures
        forall|n: Seq<char>|
            st.name is Some ==> #[trigger] spec_step(st, RecordV::AirspaceName(n)) == Err::<
                AccV,
                Seq<char>,
            >("Could not set name (already defined)"@),
        forall|c: Class|
            st.class is Some ==> #[trigger] spec_step(st, RecordV::AirspaceClass(c)) == Err::<
                AccV,
                Seq<char>,
            >("Could not set class (already defined)"@),
        forall|a: AltV|
            st.lower_bound is Some ==> #[trigger] spec_step(st, RecordV::LowerBound(a)) == Err::<
                AccV,
                Seq<char>,
            >("Could not set lower_bound (already defined)"@),
        forall|a: AltV|
            st.upper_bound is Some ==> #[trigger] spec_step(st, RecordV::UpperBound(a)) == Err::<
                AccV,
                Seq<char>,
            >("Could not set upper_bound (already defined)"@),
        forall|t: Seq<char>|
            st.type_ is Some ==> #[trigger] spec_step(st, RecordV::AirspaceType(t)) == Err::<
                AccV,
                Seq<char>,
            >("Could not set type (already defined)"@),
        forall|f: Seq<char>|
            st.frequency is Some ==> #[trigger] spec_step(st, RecordV::Frequency(f)) == Err::<
                AccV,
                Seq<char>,
            >("Could not set frequency (already defined)"@),
        forall|s: Seq<char>|
            st.call_sign is Some ==> #[trigger] spec_step(st, RecordV::CallSign(s)) == Err::<
                AccV,
                Seq<char>,
            >("Could not set call_sign (already defined)"@),
        forall|c: u16|
            st.transponder_code is Some ==> #[trigger] spec_step(
                st,
                RecordV::TransponderCode(c),
            ) == Err::<AccV, Seq<char>>("Could not set transponder_code (already defined)"@),
        forall|t: ActivationTimes|
            st.activation_times is Some ==> #[trigger] spec_step(
                st,
                RecordV::ActivationTimes(t),
            ) == Err::<AccV, Seq<char>>("Could not set activation_times (already defined)"@),
{
}

/// Exclusive geometry kind: a segment record after a circle geometry is
/// rejected, and a circle-radius record after any geometry is rejected.
pub proof fn lemma_geometry_kind_exclusive(st: AccV)
    requires
        st.geom is Some,
    ensures
        forall|c: Coord|
            (st.geom matches Some(GeomV::Circle { .. })) ==> #[trigger] spec_step(
                st,
                RecordV::Point(c),
            ) == Err::<AccV, Seq<char>>("Cannot add a point to a circle"@),
        forall|r: crate::decimal::Decimal|
            #[trigger] spec_step(st, RecordV::CircleRadius(r)) == Err::<AccV, Seq<char>>(
                "Geometry already set"@,
            ),
{
}

/// An error on an early line is the error of the whole run.
proof fn lemma_run_err_prefix(st: AccV, lines: Seq<Seq<char>>, i: int)
    requires
        0 <= i <= lines.len(),
        spec_run(st, lines.take(i)) is Err,
    ensures
        spec_run(st, lines) is Err,
        spec_run(st, lines)->Err_0 == spec_run(st, lines.take(i))->Err_0,
    decreases lines.len() - i,
{
    if i == lines.len() {
        assert(lines.take(i) =~= lines);
    } else {
        assert(lines.take(i + 1).drop_last() =~= lines.take(i));
        lemma_run_err_prefix(st, lines, i + 1);
    }
}

/// Parses a whole input, given as its lines, into the airspaces it defines,
/// in input order; the first failure aborts the parse.
pub fn parse_lines(lines: &Vec<String>) -> (r: Result<Vec<Airspace>, String>)
    ensures
        match r {
            Ok(asps) => {
                &&& spec_parse_lines(lines@.map_values(|s: String| s@)) == Ok::<
                    Seq<AirspaceV>,
                    Seq<char>,
                >(asps@.map_values(|a: Airspace| a@))
                &&& forall|i: int|
                    0 <= i < asps@.len() ==> spec_airspace_wf((#[trigger] asps@[i])@)
            },
            Err(m) => spec_parse_lines(lines@.map_values(|s: String| s@)) is Err && m@
                == spec_parse_lines(lines@.map_values(|s: String| s@))->Err_0,
        },
{
    let ghost lviews = lines@.map_values(|s: String| s@);
    let mut parser = Parser::new();
    let mut out: Vec<Airspace> = Vec::new();
    let n = lines.len();
    let mut i: usize = 0;
    assert(lviews.take(0) =~= Seq::<Seq<char>>::empty());
    assert(out@.map_values(|a: Airspace| a@) =~= Seq::<AirspaceV>::empty());
    while i < n
        invariant
            i <= n,
            n == lines@.len(),
            lviews == lines@.map_values(|s: String| s@),
            parser@.wf(),
            spec_run(acc_empty(), lviews.take(i as int)) == Ok::<(AccV, Seq<AirspaceV>), Seq<char>>(
                (parser@, out@.map_values(|a: Airspace| a@)),
            ),
            forall|j: int| 0 <= j < out@.len() ==> spec_airspace_wf((#[trigger] out@[j])@),
        decreases n - i,
    {
        let ghost pre = out@.map_values(|a: Airspace| a@);
        proof {
            assert(lviews.take(i + 1).drop_last() =~= lviews.take(i as int));
            assert(lviews.take(i + 1).last() == lviews[i as int]);
            assert(lviews[i as int] == lines@[i as int]@);
        }
        match parser.push_line(lines[i].as_str()) {
            Ok(Some(a)) => {
                proof {
                    assert((out@.push(a)).map_values(|x: Airspace| x@) =~= pre.push(a@));
                }
                out.push(a);
            },
            Ok(None) => {},
            Err(m) => {
                proof {
                    lemma_run_err_prefix(acc_empty(), lviews, i + 1);
                }
                return Err(m);
            },
        }
        i += 1;
    }
    assert(lviews.take(n as int) =~= lviews);
    let ghost pre = out@.map_values(|a: Airspace| a@);
    match parser.finish() {
        Ok(Some(a)) => {
            proof {
                assert((out@.push(a)).map_values(|x: Airspace| x@) =~= pre.push(a@));
            }
            out.push(a);
            Ok(out)
        },
        Ok(None) => Ok(out),
        Err(m) => Err(m),
    }
}

impl Parser {
    /// A fresh accumulator.
    pub fn new() -> (r: Self)
        ensures
            r@ == acc_empty(),
            r@.wf(),
    {
        Parser {
            name: None,
            class: None,
            lower_bound: None,
            upper_bound: None,
            type_: None,
            frequency: None,
            call_sign: None,
            transponder_code: None,
            activation_times: None,
            geom: None,
            var_x: None,
            var_d: None,
        }
    }

    /// Feeds one line. A class declaration while an airspace is in progress
    /// finishes and returns that airspace and seeds a fresh accumulator with
    /// the new class; any other record only updates the accumulator. On a
    /// failure the accumulator is left as it was.
    pub fn push_line(&mut self, line: &str) -> (r: Result<Option<Airspace>, String>)
        requires
            old(self)@.wf(),
        ensures
            final(self)@.wf(),
            match r {
                Ok(opt) => {
                    &&& spec_push(old(self)@, line@) is Ok
                    &&& final(self)@ == spec_push(old(self)@, line@)->Ok_0.0
                    &&& match opt {
                        Some(a) => spec_push(old(self)@, line@)->Ok_0.1 == Some(a@)
                            && spec_airspace_wf(a@),
                        None => spec_push(old(self)@, line@)->Ok_0.1 is None,
                    }
                },
                Err(m) => {
                    &&& spec_push(old(self)@, line@) is Err
                    &&& m@ == spec_push(old(self)@, line@)->Err_0
                    &&& final(self)@ == old(self)@
                },
            },
    {
        let n = line.unicode_len();
        let mut b: usize = 0;
        while b < n && line.get_char(b) == '\u{feff}'
            invariant
                b <= n,
                n == line@.len(),
                skip_bom(line@, 0) == skip_bom(line@, b as int),
            decreases n - b,
        {
            b += 1;
        }
        let stripped = line.substring_char(b, n);
        assert(stripped@ == bom_stripped(line@));
        let rec = match Record::parse(stripped) {
            Ok(r) => r,
            Err(m) => {
                return Err(m);
            },
        };
        let boundary: bool = match &rec {
            Record::AirspaceClass(_) => self.class.is_some(),
            _ => false,
        };
        if boundary {
            let c: Class = match &rec {
                Record::AirspaceClass(c) => *c,
                _ => {
                    assert(false);
                    Class::A
                },
            };
            let a = match self.finish_airspace() {
                Ok(a) => a,
                Err(m) => {
                    return Err(m);
                },
            };
            self.class = Some(c);
            Ok(Some(a))
        } else {
            match self.consume(rec) {
                Ok(()) => Ok(None),
                Err(m) => Err(m),
            }
        }
    }

    /// Finishes at end of input: returns the airspace under assembly if one
    /// is, and resets the accumulator.
    pub fn finish(&mut self) -> (r: Result<Option<Airspace>, String>)
        requires
            old(self)@.wf(),
        ensures
            final(self)@.wf(),
            match r {
                Ok(opt) => {
                    &&& spec_finish(old(self)@) is Ok
                    &&& final(self)@ == spec_finish(old(self)@)->Ok_0.0
                    &&& match opt {
                        Some(a) => spec_finish(old(self)@)->Ok_0.1 == Some(a@)
                            && spec_airspace_wf(a@),
                        None => spec_finish(old(self)@)->Ok_0.1 is None,
                    }
                },
                Err(m) => {
                    &&& spec_finish(old(self)@) is Err
                    &&& m@ == spec_finish(old(self)@)->Err_0
                    &&& final(self)@ == old(self)@
                },
            },
    {
        if self.class.is_some() {
            let a = match self.finish_airspace() {
                Ok(a) => a,
                Err(m) => {
                    return Err(m);
                },
            };
            Ok(Some(a))
        } else {
            self.name = None;
            self.lower_bound = None;
            self.upper_bound = None;
            self.type_ = None;
            self.frequency = None;
            self.call_sign = None;
            self.transponder_code = None;
            self.activation_times = None;
            self.geom = None;
            self.var_x = None;
            self.var_d = None;
            assert(self@ =~= acc_empty());
            Ok(None)
        }
    }

    /// Builds the finished airspace from the accumulator and resets it; a
    /// missing required field is a failure citing the airspace's name when
    /// known.
    fn finish_airspace(&mut self) -> (r: Result<Airspace, String>)
        requires
            old(self)@.class is Some,
            old(self)@.wf(),
        ensures
            match r {
                Ok(a) => spec_finish_airspace(old(self)@) == Ok::<AirspaceV, Seq<char>>(a@)
                    && final(self)@ == acc_empty() && spec_airspace_wf(a@),
                Err(m) => spec_finish_airspace(old(self)@) is Err && m@ == spec_finish_airspace(
                    old(self)@,
                )->Err_0 && final(self)@ == old(self)@,
            },
    {
        if self.name.is_none() {
            return Err(String::from_str("Missing name"));
        }
        if self.lower_bound.is_none() {
            let m = match &self.name {
                Some(nm) => String::from_str("Missing lower bound for '").concat(
                    nm.as_str(),
                ).concat("'"),
                None => String::new(),
            };
            return Err(m);
        }
        if self.upper_bound.is_none() {
            let m = match &self.name {
                Some(nm) => String::from_str("Missing upper bound for '").concat(
                    nm.as_str(),
                ).concat("'"),
                None => String::new(),
            };
            return Err(m);
        }
        if self.geom.is_none() {
            let m = match &self.name {
                Some(nm) => String::from_str("Missing geom for '").concat(nm.as_str()).concat(
                    "'",
                ),
                None => String::new(),
            };
            return Err(m);
        }
        let name = match self.name.take() {
            Some(x) => x,
            None => {
                assert(false);
                String::new()
            },
        };
        let class = match self.class.take() {
            Some(x) => x,
            None => {
                assert(false);
                Class::A
            },
        };
        let lower_bound = match self.lower_bound.take() {
            Some(x) => x,
            None => {
                assert(false);
                Altitude::Gnd
            },
        };
        let upper_bound = match self.upper_bound.take() {
            Some(x) => x,
            None => {
                assert(false);
                Altitude::Gnd
            },
        };
        let geom = match self.geom.take() {
            Some(x) => x,
            None => {
                assert(false);
                Geometry::Polygon { segments: Vec::new() }
            },
        };
        let type_ = self.type_.take();
        let frequency = self.frequency.take();
        let call_sign = self.call_sign.take();
        let transponder_code = self.transponder_code.take();
        let activation_times = self.activation_times.take();
        self.var_x = None;
        self.var_d = None;
        assert(self@ =~= acc_empty());
        Ok(
            Airspace {
                name,
                class,
                type_,
                lower_bound,
                upper_bound,
                geom,
                frequency,
                call_sign,
                transponder_code,
                activation_times,
            },
        )
    }

    /// Consumes one record into the accumulator.
    fn consume(&mut self, rec: Record<'_>) -> (r: Result<(), String>)
        requires
            old(self)@.wf(),
            crate::record::spec_record_wf(rec@),
        ensures
            final(self)@.wf(),
            match r {
                Ok(()) => spec_step(old(self)@, rec@) == Ok::<AccV, Seq<char>>(final(self)@),
                Err(m) => spec_step(old(self)@, rec@) is Err && m@ == spec_step(
                    old(self)@,
                    rec@,
                )->Err_0 && final(self)@ == old(self)@,
            },
    {
        match rec {
            Record::Empty => Ok(()),
            Record::Comment => Ok(()),
            Record::LabelPlacement => Ok(()),
            Record::Pen => Ok(()),
            Record::Brush => Ok(()),
            Record::UnknownExtension(_) => Ok(()),
            Record::AirspaceClass(c) => {
                if self.class.is_some() {
                    return Err(String::from_str("Could not set class (already defined)"));
                }
                self.class = Some(c);
                Ok(())
            },
            Record::AirspaceName(n) => {
                if self.name.is_some() {
                    return Err(String::from_str("Could not set name (already defined)"));
                }
                self.name = Some(String::from_str(n));
                Ok(())
            },
            Record::LowerBound(a) => {
                if self.lower_bound.is_some() {
                    return Err(String::from_str("Could not set lower_bound (already defined)"));
                }
                self.lower_bound = Some(a);
                Ok(())
            },
            Record::UpperBound(a) => {
                if self.upper_bound.is_some() {
                    return Err(String::from_str("Could not set upper_bound (already defined)"));
                }
                self.upper_bound = Some(a);
                Ok(())
            },
            Record::AirspaceType(t) => {
                if self.type_.is_some() {
                    return Err(String::from_str("Could not set type (already defined)"));
                }
                self.type_ = Some(String::from_str(t));
                Ok(())
            },
            Record::Frequency(f) => {
                if self.frequency.is_some() {
                    return Err(String::from_str("Could not set frequency (already defined)"));
                }
                self.frequency = Some(String::from_str(f));
                Ok(())
            },
            Record::CallSign(s) => {
                if self.call_sign.is_some() {
                    return Err(String::from_str("Could not set call_sign (already defined)"));
                }
                self.call_sign = Some(String::from_str(s));
                Ok(())
            },
            Record::TransponderCode(c) => {
                if self.transponder_code.is_some() {
                    return Err(
                        String::from_str("Could not set transponder_code (already defined)"),
                    );
                }
                self.transponder_code = Some(c);
                Ok(())
            },
            Record::ActivationTimes(t) => {
                if self.activation_times.is_some() {
                    return Err(
                        String::from_str("Could not set activation_times (already defined)"),
                    );
                }
                self.activation_times = Some(t);
                Ok(())
            },
            Record::VarX(c) => {
                self.var_x = Some(c);
                Ok(())
            },
            Record::VarD(d) => {
                self.var_d = Some(d);
                Ok(())
            },
            Record::Point(c) => self.append_segment(PolygonSegment::Point(c)),
            Record::CircleRadius(radius) => {
                if self.geom.is_some() {
                    return Err(String::from_str("Geometry already set"));
                }
                let centerpoint = match self.var_x {
                    Some(cp) => cp,
                    None => {
                        return Err(String::from_str("Centerpoint missing"));
                    },
                };
                self.geom = Some(Geometry::Circle { centerpoint, radius });
                Ok(())
            },
            Record::ArcSegmentData { radius, angle_start, angle_end } => {
                let centerpoint = match self.var_x {
                    Some(cp) => cp,
                    None => {
                        return Err(String::from_str("Centerpoint missing"));
                    },
                };
                let direction = match self.var_d {
                    Some(d) => d,
                    None => Direction::Cw,
                };
                self.append_segment(
                    PolygonSegment::ArcSegment(
                        ArcSegment { centerpoint, radius, angle_start, angle_end, direction },
                    ),
                )
            },
            Record::ArcData { start, end } => {
                let centerpoint = match self.var_x {
                    Some(cp) => cp,
                    None => {
                        return Err(String::from_str("Centerpoint missing"));
                    },
                };
                let direction = match self.var_d {
                    Some(d) => d,
                    None => Direction::Cw,
                };
                self.append_segment(
                    PolygonSegment::Arc(Arc { centerpoint, start, end, direction }),
                )
            },
        }
    }

    /// Appends one polygon segment: starts a polygon, grows one, or refuses
    /// on a circle.
    fn append_segment(&mut self, seg: PolygonSegment) -> (r: Result<(), String>)
        requires
            old(self)@.wf(),
            seg.wf(),
        ensures
            final(self)@.wf(),
            match r {
                Ok(()) => spec_append_segment(old(self)@, seg) == Ok::<AccV, Seq<char>>(
                    final(self)@,
                ),
                Err(m) => spec_append_segment(old(self)@, seg) is Err && m@
                    == spec_append_segment(old(self)@, seg)->Err_0 && final(self)@ == old(self)@,
            },
    {
        let g = self.geom.take();
        match g {
            None => {
                let segments: Vec<PolygonSegment> = vec![seg];
                assert(segments@ =~= seq![seg]);
                self.geom = Some(Geometry::Polygon { segments });
                Ok(())
            },
            Some(Geometry::Polygon { mut segments }) => {
                segments.push(seg);
                self.geom = Some(Geometry::Polygon { segments });
                Ok(())
            },
            Some(Geometry::Circle { centerpoint, radius }) => {
                self.geom = Some(Geometry::Circle { centerpoint, radius });
                assert(self@ =~= old(self)@);
                Err(String::from_str("Cannot add a point to a circle"))
            },
        }
    }
}

} // verus!
