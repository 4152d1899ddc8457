use openair::activations::ActivationTimes;
use openair::altitude::Altitude;
use openair::classes::Class;
use openair::coords::Coord;
use openair::decimal::Decimal;
use openair::geometry::{Arc, ArcSegment, Direction, Geometry, PolygonSegment};
use openair::Airspace;

fn deg(lat: i64, lng: i64) -> Coord {
    Coord {
        lat_mas: lat * 3_600_000,
        lng_mas: lng * 3_600_000,
    }
}

fn half_deg(lat2: i64, lng2: i64) -> Coord {
    Coord {
        lat_mas: lat2 * 1_800_000,
        lng_mas: lng2 * 1_800_000,
    }
}

fn nm(milli: i64) -> Decimal {
    Decimal { milli }
}

fn write_airspace(airspace: &Airspace) -> String {
    airspace.write()
}

#[test]
fn write_minimal_circle() {
    let airspace = Airspace {
        name: "Test Zone".to_string(),
        class: Class::D,
        type_: None,
        lower_bound: Altitude::Gnd,
        upper_bound: Altitude::FlightLevel(100),
        geom: Geometry::Circle {
            centerpoint: deg(47, 8),
            radius: nm(5_000),
        },
        frequency: None,
        call_sign: None,
        transponder_code: None,
        activation_times: None,
    };

    assert_eq!(
        write_airspace(&airspace),
        "AC D\r\n\
         AN Test Zone\r\n\
         AL GND\r\n\
         AH FL100\r\n\
         V X=47:00:00 N 008:00:00 E\r\n\
         DC 5\r\n"
    );
}

#[test]
fn write_full_circle() {
    let airspace = Airspace {
        name: "Full Test Zone".to_string(),
        class: Class::Ctr,
        type_: Some("CTR".to_string()),
        lower_bound: Altitude::FeetAmsl(1000),
        upper_bound: Altitude::FeetAmsl(5000),
        geom: Geometry::Circle {
            centerpoint: half_deg(93, 19),
            radius: nm(10_000),
        },
        frequency: Some("123.45".to_string()),
        call_sign: Some("TOWER".to_string()),
        transponder_code: Some(7000),
        activation_times: Some(
            ActivationTimes::from_str("2023-12-16T12:00Z/2023-12-16T13:00Z").unwrap(),
        ),
    };

    assert_eq!(
        write_airspace(&airspace),
        "AC CTR\r\n\
         AY CTR\r\n\
         AN Full Test Zone\r\n\
         AL 1000ft AMSL\r\n\
         AH 5000ft AMSL\r\n\
         AF 123.45\r\n\
         AG TOWER\r\n\
         AX 7000\r\n\
         AA 2023-12-16T12:00:00.0+00:00/2023-12-16T13:00:00.0+00:00\r\n\
         V X=46:30:00 N 009:30:00 E\r\n\
         DC 10\r\n"
    );
}

#[test]
fn write_polygon_with_points() {
    let airspace = Airspace {
        name: "Polygon Zone".to_string(),
        class: Class::A,
        type_: None,
        lower_bound: Altitude::Gnd,
        upper_bound: Altitude::Unlimited,
        geom: Geometry::Polygon {
            segments: vec![
                PolygonSegment::Point(deg(47, 8)),
                PolygonSegment::Point(deg(47, 9)),
                PolygonSegment::Point(deg(46, 9)),
            ],
        },
        frequency: None,
        call_sign: None,
        transponder_code: None,
        activation_times: None,
    };

    assert_eq!(
        write_airspace(&airspace),
        "AC A\r\n\
         AN Polygon Zone\r\n\
         AL GND\r\n\
         AH UNLIM\r\n\
         DP 47:00:00 N 008:00:00 E\r\n\
         DP 47:00:00 N 009:00:00 E\r\n\
         DP 46:00:00 N 009:00:00 E\r\n"
    );
}

#[test]
fn write_polygon_with_arc_segment() {
    let airspace = Airspace {
        name: "Arc Segment Zone".to_string(),
        class: Class::Restricted,
        type_: None,
        lower_bound: Altitude::FeetAgl(0),
        upper_bound: Altitude::FeetAmsl(3000),
        geom: Geometry::Polygon {
            segments: vec![
                PolygonSegment::Point(deg(47, 8)),
                PolygonSegment::ArcSegment(ArcSegment {
                    centerpoint: half_deg(94, 17),
                    radius: nm(10_000),
                    angle_start: nm(270_000),
                    angle_end: nm(290_000),
                    direction: Direction::Cw,
                }),
            ],
        },
        frequency: None,
        call_sign: None,
        transponder_code: None,
        activation_times: None,
    };

    assert_eq!(
        write_airspace(&airspace),
        "AC R\r\n\
         AN Arc Segment Zone\r\n\
         AL 0ft AGL\r\n\
         AH 3000ft AMSL\r\n\
         DP 47:00:00 N 008:00:00 E\r\n\
         V X=47:00:00 N 008:30:00 E\r\n\
         V D=+\r\n\
         DA 10, 270, 290\r\n"
    );
}

#[test]
fn write_polygon_with_arc() {
    let airspace = Airspace {
        name: "Arc Zone".to_string(),
        class: Class::Danger,
        type_: None,
        lower_bound: Altitude::Gnd,
        upper_bound: Altitude::FlightLevel(50),
        geom: Geometry::Polygon {
            segments: vec![PolygonSegment::Arc(Arc {
                centerpoint: deg(47, 8),
                start: half_deg(94, 17),
                end: half_deg(95, 16),
                direction: Direction::Ccw,
            })],
        },
        frequency: None,
        call_sign: None,
        transponder_code: None,
        activation_times: None,
    };

    assert_eq!(
        write_airspace(&airspace),
        "AC Q\r\n\
         AN Arc Zone\r\n\
         AL GND\r\n\
         AH FL50\r\n\
         V X=47:00:00 N 008:00:00 E\r\n\
         V D=-\r\n\
         DB 47:00:00 N 008:30:00 E, 47:30:00 N 008:00:00 E\r\n"
    );
}

#[test]
fn write_single_airspace() {
    let airspace = Airspace {
        name: "Test Zone".to_string(),
        class: Class::D,
        type_: None,
        lower_bound: Altitude::Gnd,
        upper_bound: Altitude::FlightLevel(100),
        geom: Geometry::Circle {
            centerpoint: deg(47, 8),
            radius: nm(5_000),
        },
        frequency: None,
        call_sign: None,
        transponder_code: None,
        activation_times: None,
    };

    let output = openair::write(&vec![airspace]);

    assert_eq!(
        output,
        "AC D\r\n\
         AN Test Zone\r\n\
         AL GND\r\n\
         AH FL100\r\n\
         V X=47:00:00 N 008:00:00 E\r\n\
         DC 5\r\n"
    );
}

#[test]
fn write_multiple_airspaces() {
    let airspace1 = Airspace {
        name: "Zone A".to_string(),
        class: Class::A,
        type_: None,
        lower_bound: Altitude::Gnd,
        upper_bound: Altitude::FlightLevel(100),
        geom: Geometry::Circle {
            centerpoint: deg(47, 8),
            radius: nm(5_000),
        },
        frequency: None,
        call_sign: None,
        transponder_code: None,
        activation_times: None,
    };

    let airspace2 = Airspace {
        name: "Zone B".to_string(),
        class: Class::B,
        type_: None,
        lower_bound: Altitude::FeetAmsl(1000),
        upper_bound: Altitude::FeetAmsl(5000),
        geom: Geometry::Polygon {
            segments: vec![
                PolygonSegment::Point(deg(46, 7)),
                PolygonSegment::Point(deg(46, 8)),
                PolygonSegment::Point(deg(45, 8)),
            ],
        },
        frequency: None,
        call_sign: None,
        transponder_code: None,
        activation_times: None,
    };

    let airspace3 = Airspace {
        name: "Zone C".to_string(),
        class: Class::C,
        type_: Some("CTR".to_string()),
        lower_bound: Altitude::Gnd,
        upper_bound: Altitude::Unlimited,
        geom: Geometry::Circle {
            centerpoint: deg(48, 9),
            radius: nm(10_000),
        },
        frequency: Some("123.45".to_string()),
        call_sign: Some("TOWER".to_string()),
        transponder_code: None,
        activation_times: None,
    };

    let output = openair::write(&vec![airspace1, airspace2, airspace3]);

    assert_eq!(
        output,
        "AC A\r\n\
         AN Zone A\r\n\
         AL GND\r\n\
         AH FL100\r\n\
         V X=47:00:00 N 008:00:00 E\r\n\
         DC 5\r\n\
         \r\n\
         AC B\r\n\
         AN Zone B\r\n\
         AL 1000ft AMSL\r\n\
         AH 5000ft AMSL\r\n\
         DP 46:00:00 N 007:00:00 E\r\n\
         DP 46:00:00 N 008:00:00 E\r\n\
         DP 45:00:00 N 008:00:00 E\r\n\
         \r\n\
         AC C\r\n\
         AY CTR\r\n\
         AN Zone C\r\n\
         AL GND\r\n\
         AH UNLIM\r\n\
         AF 123.45\r\n\
         AG TOWER\r\n\
         V X=48:00:00 N 009:00:00 E\r\n\
         DC 10\r\n"
    );
}

#[test]
fn write_empty_iterator() {
    let airspaces: Vec<Airspace> = vec![];
    let output = openair::write(&airspaces);
    assert_eq!(output, "");
}

#[test]
fn write_with_vec() {
    let airspace = Airspace {
        name: "Test".to_string(),
        class: Class::D,
        type_: None,
        lower_bound: Altitude::Gnd,
        upper_bound: Altitude::FlightLevel(50),
        geom: Geometry::Circle {
            centerpoint: deg(47, 8),
            radius: nm(3_000),
        },
        frequency: None,
        call_sign: None,
        transponder_code: None,
        activation_times: None,
    };

    let airspaces = vec![airspace];
    let output = openair::write(&airspaces);

    assert_eq!(
        output,
        "AC D\r\n\
         AN Test\r\n\
         AL GND\r\n\
         AH FL50\r\n\
         V X=47:00:00 N 008:00:00 E\r\n\
         DC 3\r\n"
    );
}
