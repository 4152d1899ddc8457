//! Airspace geometry: direction, arcs, arc segments, points and the two
//! exclusive geometry kinds.
use vstd::prelude::*;

use crate::chars::str_eq;
use crate::coords::Coord;
use crate::decimal::Decimal;

verus! {

/// Arc direction, either clockwise or counterclockwise.
#[derive(Debug, PartialEq, Eq, Copy, Clone, Structural)]
pub enum Direction {
    /// Clockwise.
    Cw,
    /// Counterclockwise.
    Ccw,
}

impl Default for Direction {
    /// An unspecified direction means clockwise.
    fn default() -> (r: Self)
        ensures
            r == Direction::Cw,
    {
        Direction::Cw
    }
}

/// The direction denoted by a direction-assignment payload.
pub open spec fn spec_parse_direction(s: Seq<char>) -> Option<Direction> {
    if s == "+"@ {
        Some(Direction::Cw)
    } else if s == "-"@ {
        Some(Direction::Ccw)
    } else {
        None
    }
}

impl Direction {
    /// Decodes a direction sign; anything else is a hard failure naming the
    /// payload.
    pub fn parse(data: &str) -> (r: Result<Self, String>)
        ensures
            match r {
                Ok(d) => spec_parse_direction(data@) == Some(d),
                Err(m) => spec_parse_direction(data@) is None && m@ == "Invalid direction: "@
                    + data@,
            },
    {
        if str_eq(data, "+") {
            Ok(Direction::Cw)
        } else if str_eq(data, "-") {
            Ok(Direction::Ccw)
        } else {
            Err(String::from_str("Invalid direction: ").concat(data))
        }
    }
}

/// An arc segment around a centerpoint, bounded by two angles.
#[derive(Debug, PartialEq, Eq, Clone, Copy, Structural)]
pub struct ArcSegment {
    pub centerpoint: Coord,
    pub radius: Decimal,
    pub angle_start: Decimal,
    pub angle_end: Decimal,
    pub direction: Direction,
}

/// An arc around a centerpoint from one coordinate to another.
#[derive(Debug, PartialEq, Eq, Clone, Copy, Structural)]
pub struct Arc {
    pub centerpoint: Coord,
    pub start: Coord,
    pub end: Coord,
    pub direction: Direction,
}

/// A polygon segment.
#[derive(Debug, PartialEq, Eq, Clone, Copy, Structural)]
pub enum PolygonSegment {
    Point(Coord),
    Arc(Arc),
    ArcSegment(ArcSegment),
}

/// The geometry of an airspace: exclusively a polygon or a circle.
#[derive(Debug, PartialEq)]
pub enum Geometry {
    Polygon {
        /// Segments describing the polygon.
        ///
        /// The polygon may be open or closed.
        segments: Vec<PolygonSegment>,
    },
    Circle {
        /// The centerpoint of the circle.
        centerpoint: Coord,
        /// Radius of the circle in nautical miles (1 NM = 1852 m).
        radius: Decimal,
    },
}

/// Mathematical image of a `Geometry`.
pub enum GeomV {
    Polygon { segments: Seq<PolygonSegment> },
    Circle { centerpoint: Coord, radius: Decimal },
}

impl View for Geometry {
    type V = GeomV;

    open spec fn view(&self) -> GeomV {
        match self {
            Geometry::Polygon { segments } => GeomV::Polygon { segments: segments@ },
            Geometry::Circle { centerpoint, radius } => GeomV::Circle {
                centerpoint: *centerpoint,
                radius: *radius,
            },
        }
    }
}

impl PolygonSegment {
    /// The coordinate and decimal magnitudes the writer relies on.
    pub open spec fn wf(&self) -> bool {
        match self {
            PolygonSegment::Point(c) => c.wf(),
            PolygonSegment::Arc(a) => a.centerpoint.wf() && a.start.wf() && a.end.wf(),
            PolygonSegment::ArcSegment(a) => a.centerpoint.wf() && a.radius.wf()
                && a.angle_start.wf() && a.angle_end.wf(),
        }
    }
}

impl GeomV {
    /// The coordinate and decimal magnitudes the writer relies on.
    pub open spec fn wf(&self) -> bool {
        &&& (self matches GeomV::Polygon { segments } ==> segments_wf(*segments))
        &&& (self matches GeomV::Circle { centerpoint, radius } ==> centerpoint.wf()
            && radius.wf())
    }
}

/// Every segment of a polygon within the writer's magnitudes.
pub open spec fn segments_wf(segments: Seq<PolygonSegment>) -> bool {
    forall|i: int| 0 <= i < segments.len() ==> (#[trigger] segments[i]).wf()
}

} // verus!
