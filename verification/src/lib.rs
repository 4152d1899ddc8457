//! Parser and writer for airspace definition files in the line-oriented
//! OpenAir format used by flight instruments.
//!
//! The format is deliberately underspecified and real files vary in
//! whitespace, case, units and coordinate notation; the parsers here are
//! lenient in the same places real files are inconsistent. There is no
//! reliable delimiter between airspaces: an airspace ends where the next
//! class declaration begins, or at the end of the input.
use vstd::prelude::*;

pub mod activations;
pub mod altitude;
pub mod assembler;
pub mod chars;
pub mod classes;
pub mod coords;
pub mod decimal;
pub mod geometry;
pub mod record;

use crate::activations::ActivationTimes;
use crate::altitude::{AltV, Altitude};
use crate::chars::u64_string;
use crate::classes::Class;
use crate::geometry::{GeomV, Geometry, PolygonSegment};
use crate::record::{crlf, crlf_str, spec_render_record, RecordV};

verus! {

broadcast use vstd::string::group_string_axioms;

/// An airspace.
#[derive(Debug, PartialEq)]
pub struct Airspace {
    /// The name / description of the airspace
    pub name: String,
    /// The airspace class
    pub class: Class,
    /// The airspace type (extension record)
    pub type_: Option<String>,
    /// The lower bound of the airspace
    pub lower_bound: Altitude,
    /// The upper bound of the airspace
    pub upper_bound: Altitude,
    /// The airspace geometry
    pub geom: Geometry,
    /// Frequency of the controlling ATC-station or other authority in that
    /// particular airspace (extension record)
    pub frequency: Option<String>,
    /// Call-sign for this station
    pub call_sign: Option<String>,
    /// Transponder code associated with this airspace
    pub transponder_code: Option<u16>,
    /// Airspace activation times
    pub activation_times: Option<ActivationTimes>,
}

/// Mathematical image of an `Airspace`.
pub struct AirspaceV {
    pub name: Seq<char>,
    pub class: Class,
    pub type_: Option<Seq<char>>,
    pub lower_bound: AltV,
    pub upper_bound: AltV,
    pub geom: GeomV,
    pub frequency: Option<Seq<char>>,
    pub call_sign: Option<Seq<char>>,
    pub transponder_code: Option<u16>,
    pub activation_times: Option<ActivationTimes>,
}

impl View for Airspace {
    type V = AirspaceV;

    open spec fn view(&self) -> AirspaceV {
        AirspaceV {
            name: self.name@,
            class: self.class,
            type_: match &self.type_ {
                Some(s) => Some(s@),
                None => None,
            },
            lower_bound: self.lower_bound@,
            upper_bound: self.upper_bound@,
            geom: self.geom@,
            frequency: match &self.frequency {
                Some(s) => Some(s@),
                None => None,
            },
            call_sign: match &self.call_sign {
                Some(s) => Some(s@),
                None => None,
            },
            transponder_code: self.transponder_code,
            activation_times: self.activation_times,
        }
    }
}

/// The coordinate and decimal magnitudes an airspace's writer relies on;
/// every parsed airspace obeys them.
pub open spec fn spec_airspace_wf(a: AirspaceV) -> bool {
    a.geom.wf()
}

/// The written lines of one polygon segment: a bare point line, or the
/// carry-over centerpoint and direction lines followed by the arc data line.
pub open spec fn spec_render_segment(seg: PolygonSegment) -> Seq<char> {
    match seg {
        PolygonSegment::Point(c) => spec_render_record(RecordV::Point(c)),
        PolygonSegment::ArcSegment(a) => spec_render_record(RecordV::VarX(a.centerpoint))
            + spec_render_record(RecordV::VarD(a.direction)) + spec_render_record(
            RecordV::ArcSegmentData {
                radius: a.radius,
                angle_start: a.angle_start,
                angle_end: a.angle_end,
            },
        ),
        PolygonSegment::Arc(a) => spec_render_record(RecordV::VarX(a.centerpoint))
            + spec_render_record(RecordV::VarD(a.direction)) + spec_render_record(
            RecordV::ArcData { start: a.start, end: a.end },
        ),
    }
}

/// The written lines of a polygon's segments, in order.
pub open spec fn spec_render_segments(segs: Seq<PolygonSegment>) -> Seq<char>
    decreases segs.len(),
{
    if segs.len() == 0 {
        Seq::empty()
    } else {
        spec_render_segments(segs.drop_last()) + spec_render_segment(segs.last())
    }
}

/// The written lines of a geometry: a centerpoint line and a radius line for
/// a circle, or each polygon segment in order.
pub open spec fn spec_render_geom(g: GeomV) -> Seq<char> {
    match g {
        GeomV::Circle { centerpoint, radius } => spec_render_record(RecordV::VarX(centerpoint))
            + spec_render_record(RecordV::CircleRadius(radius)),
        GeomV::Polygon { segments } => spec_render_segments(segments),
    }
}

/// The written lines of one airspace, in the fixed order of the format:
/// class, optional type, name, the two bounds, the optional extension
/// records, then the geometry.
pub open spec fn spec_render_airspace(a: AirspaceV) -> Seq<char> {
    spec_render_header(a) + spec_render_geom(a.geom)
}

/// The header lines of one airspace: everything before the geometry.
pub open spec fn spec_render_header(a: AirspaceV) -> Seq<char> {
    spec_render_record(RecordV::AirspaceClass(a.class)) + (match a.type_ {
        Some(t) => spec_render_record(RecordV::AirspaceType(t)),
        None => Seq::empty(),
    }) + spec_render_record(RecordV::AirspaceName(a.name)) + spec_render_record(
        RecordV::LowerBound(a.lower_bound),
    ) + spec_render_record(RecordV::UpperBound(a.upper_bound)) + spec_render_extensions(a)
}

/// The written text of several airspaces, separated by one blank line each;
/// no airspaces write no bytes.
pub open spec fn spec_render_airspaces(list: Seq<AirspaceV>) -> Seq<char>
    decreases list.len(),
{
    if list.len() == 0 {
        Seq::empty()
    } else if list.len() == 1 {
        spec_render_airspace(list.last())
    } else {
        spec_render_airspaces(list.drop_last()) + crlf() + spec_render_airspace(list.last())
    }
}

impl Airspace {
    /// Writes the airspace in OpenAir format.
    pub fn write(&self) -> (r: String)
        requires
            spec_airspace_wf(self@),
        ensures
            r@ == spec_render_airspace(self@),
    {
        let mut out = String::new();
        push_header(&mut out, self);
        let ghost head = out@;
        match &self.geom {
            Geometry::Circle { centerpoint, radius } => {
                out.append("V X=");
                out.append(centerpoint.write().as_str());
                out.append(crlf_str());
                out.append("DC ");
                out.append(radius.write().as_str());
                out.append(crlf_str());
            },
            Geometry::Polygon { segments } => {
                proof {
                    assert(self@.geom == GeomV::Polygon { segments: segments@ });
                    assert(GeomV::Polygon { segments: segments@ }.wf());
                    assert(crate::geometry::segments_wf(segments@));
                }
                let n = segments.len();
                let mut i: usize = 0;
                while i < n
                    invariant
                        i <= n,
                        n == segments@.len(),
                        crate::geometry::segments_wf(segments@),
                        out@ == head + spec_render_segments(segments@.take(i as int)),
                    decreases n - i,
                {
                    let seg = segments[i];
                    push_segment(&mut out, seg);
                    proof {
                        assert(segments@.take(i + 1).drop_last() =~= segments@.take(i as int));
                        assert(segments@.take(i + 1).last() == segments@[i as int]);
                        assert(out@ =~= head + spec_render_segments(segments@.take(i + 1)));
                    }
                    i += 1;
                }
                proof {
                    assert(segments@.take(n as int) =~= segments@);
                }
            },
        }
        proof {
            assert(out@ =~= spec_render_airspace(self@));
        }
        out
    }
}

/// Appends the header lines of one airspace.
fn push_header(out: &mut String, a: &Airspace)
    ensures
        final(out)@ == old(out)@ + spec_render_header(a@),
{
    out.append(String::from_str("AC ").concat(a.class.to_str()).concat(crlf_str()).as_str());
    match &a.type_ {
        Some(ty) => {
            out.append(String::from_str("AY ").concat(ty.as_str()).concat(crlf_str()).as_str());
        },
        None => {},
    }
    out.append(String::from_str("AN ").concat(a.name.as_str()).concat(crlf_str()).as_str());
    out.append(
        String::from_str("AL ").concat(a.lower_bound.write().as_str()).concat(
            crlf_str(),
        ).as_str(),
    );
    out.append(
        String::from_str("AH ").concat(a.upper_bound.write().as_str()).concat(
            crlf_str(),
        ).as_str(),
    );
    push_extensions(out, a);
    proof {
        assert(final(out)@ =~= old(out)@ + spec_render_header(a@));
    }
}

/// The optional extension lines of one airspace.
pub open spec fn spec_render_extensions(a: AirspaceV) -> Seq<char> {
    (match a.frequency {
        Some(f) => spec_render_record(RecordV::Frequency(f)),
        None => Seq::empty(),
    }) + (match a.call_sign {
        Some(s) => spec_render_record(RecordV::CallSign(s)),
        None => Seq::empty(),
    }) + (match a.transponder_code {
        Some(c) => spec_render_record(RecordV::TransponderCode(c)),
        None => Seq::empty(),
    }) + (match a.activation_times {
        Some(t) => spec_render_record(RecordV::ActivationTimes(t)),
        None => Seq::empty(),
    })
}

/// Appends the optional extension lines of one airspace.
fn push_extensions(out: &mut String, a: &Airspace)
    ensures
        final(out)@ == old(out)@ + spec_render_extensions(a@),
{
    match &a.frequency {
        Some(f) => {
            out.append(String::from_str("AF ").concat(f.as_str()).concat(crlf_str()).as_str());
        },
        None => {},
    }
    match &a.call_sign {
        Some(s) => {
            out.append(String::from_str("AG ").concat(s.as_str()).concat(crlf_str()).as_str());
        },
        None => {},
    }
    match a.transponder_code {
        Some(c) => {
            out.append(
                String::from_str("AX ").concat(u64_string(c as u64).as_str()).concat(
                    crlf_str(),
                ).as_str(),
            );
        },
        None => {},
    }
    match a.activation_times {
        Some(t) => {
            out.append(
                String::from_str("AA ").concat(t.write().as_str()).concat(crlf_str()).as_str(),
            );
        },
        None => {},
    }
    proof {
        assert(final(out)@ =~= old(out)@ + spec_render_extensions(a@));
    }
}

/// Appends the written lines of one polygon segment: for the arc kinds, the
/// carry-over lines are re-derived from the segment's own fields.
fn push_segment(out: &mut String, seg: PolygonSegment)
    requires
        seg.wf(),
    ensures
        final(out)@ == old(out)@ + spec_render_segment(seg),
{
    match seg {
        PolygonSegment::Point(c) => {
            out.append(crate::record::Record::Point(c).write().as_str());
        },
        PolygonSegment::ArcSegment(a) => {
            out.append(crate::record::Record::VarX(a.centerpoint).write().as_str());
            out.append(crate::record::Record::VarD(a.direction).write().as_str());
            out.append(
                crate::record::Record::ArcSegmentData {
                    radius: a.radius,
                    angle_start: a.angle_start,
                    angle_end: a.angle_end,
                }.write().as_str(),
            );
            assert(final(out)@ =~= old(out)@ + spec_render_segment(seg));
        },
        PolygonSegment::Arc(a) => {
            out.append(crate::record::Record::VarX(a.centerpoint).write().as_str());
            out.append(crate::record::Record::VarD(a.direction).write().as_str());
            out.append(
                crate::record::Record::ArcData { start: a.start, end: a.end }.write().as_str(),
            );
            assert(final(out)@ =~= old(out)@ + spec_render_segment(seg));
        },
    }
}

/// Writes multiple airspaces in OpenAir format.
///
/// Airspaces are separated by blank lines.
pub fn write(airspaces: &Vec<Airspace>) -> (r: String)
    requires
        forall|i: int| 0 <= i < airspaces@.len() ==> spec_airspace_wf((#[trigger] airspaces@[i])@),
    ensures
        r@ == spec_render_airspaces(airspaces@.map_values(|a: Airspace| a@)),
{
    let ghost views = airspaces@.map_values(|a: Airspace| a@);
    let mut out = String::new();
    let n = airspaces.len();
    let mut i: usize = 0;
    while i < n
        invariant
            i <= n,
            n == airspaces@.len(),
            views == airspaces@.map_values(|a: Airspace| a@),
            forall|j: int| 0 <= j < n ==> spec_airspace_wf((#[trigger] airspaces@[j])@),
            out@ == spec_render_airspaces(views.take(i as int)),
        decreases n - i,
    {
        if i != 0 {
            out.append(crlf_str());
        }
        let piece = airspaces[i].write();
        out.append(piece.as_str());
        proof {
            assert(views.take(i + 1).drop_last() =~= views.take(i as int));
            assert(views.take(i + 1).last() == views[i as int]);
            assert(views[i as int] == airspaces@[i as int]@);
            assert(out@ =~= spec_render_airspaces(views.take(i + 1)));
        }
        i += 1;
    }
    proof {
        assert(views.take(n as int) =~= views);
    }
    out
}

} // verus!
