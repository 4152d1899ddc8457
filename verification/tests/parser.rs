use openair::altitude::Altitude;
use openair::classes::Class;
use openair::coords::Coord;
use openair::decimal::Decimal;
use openair::geometry::{Direction, Geometry, PolygonSegment};
use openair::assembler::{parse_lines, Parser};

fn lines(strs: &[&str]) -> Vec<String> {
    strs.iter().map(|s| s.to_string()).collect()
}

#[test]
fn parse_minimal_circle() {
    // one class declaration with a well-formed body yields one airspace
    let airspaces = parse_lines(&lines(&[
        "AC D",
        "AN Test Zone",
        "AL GND",
        "AH FL100",
        "V X=47:00:00 N 008:00:00 E",
        "DC 5",
    ]))
    .unwrap();
    assert_eq!(airspaces.len(), 1);
    let a = &airspaces[0];
    assert_eq!(a.class, Class::D);
    assert_eq!(a.name, "Test Zone");
    assert_eq!(a.lower_bound, Altitude::Gnd);
    assert_eq!(a.upper_bound, Altitude::FlightLevel(100));
    assert_eq!(
        a.geom,
        Geometry::Circle {
            centerpoint: Coord {
                lat_mas: 47 * 3_600_000,
                lng_mas: 8 * 3_600_000,
            },
            radius: Decimal { milli: 5_000 },
        }
    );
}

#[test]
fn three_records_in_order() {
    // three class declarations with well-formed bodies yield exactly three
    // airspaces, in input order
    let airspaces = parse_lines(&lines(&[
        "AC A",
        "AN First",
        "AL GND",
        "AH FL100",
        "DP 47:00:00 N 008:00:00 E",
        "",
        "* a comment between airspaces",
        "AC B",
        "AN Second",
        "AL GND",
        "AH FL100",
        "DP 46:00:00 N 008:00:00 E",
        "AC C",
        "AN Third",
        "AL GND",
        "AH FL100",
        "DP 45:00:00 N 008:00:00 E",
    ]))
    .unwrap();
    assert_eq!(airspaces.len(), 3);
    assert_eq!(airspaces[0].name, "First");
    assert_eq!(airspaces[1].name, "Second");
    assert_eq!(airspaces[2].name, "Third");
    assert_eq!(airspaces[0].class, Class::A);
    assert_eq!(airspaces[1].class, Class::B);
    assert_eq!(airspaces[2].class, Class::C);
}

#[test]
fn consecutive_class_lines_split() {
    // two class declarations with nothing at all between their bodies still
    // split into two distinct airspaces
    let airspaces = parse_lines(&lines(&[
        "AC D",
        "AN One",
        "AL GND",
        "AH FL100",
        "DP 47:00:00 N 008:00:00 E",
        "AC Q",
        "AN Two",
        "AL GND",
        "AH FL100",
        "DP 46:00:00 N 008:00:00 E",
    ]))
    .unwrap();
    assert_eq!(airspaces.len(), 2);
    assert_eq!(airspaces[0].name, "One");
    assert_eq!(airspaces[0].class, Class::D);
    assert_eq!(airspaces[1].name, "Two");
    assert_eq!(airspaces[1].class, Class::Danger);
}

#[test]
fn duplicate_field_rejected() {
    // a second name line is rejected, naming the field
    let err = parse_lines(&lines(&["AC D", "AN One", "AN Two"])).unwrap_err();
    assert_eq!(err, "Could not set name (already defined)");
    let err = parse_lines(&lines(&["AC D", "AL GND", "AL GND"])).unwrap_err();
    assert_eq!(err, "Could not set lower_bound (already defined)");
    let err = parse_lines(&lines(&["AC D", "AH FL10", "AH FL10"])).unwrap_err();
    assert_eq!(err, "Could not set upper_bound (already defined)");
    let err = parse_lines(&lines(&["AC D", "AF 1", "AF 2"])).unwrap_err();
    assert_eq!(err, "Could not set frequency (already defined)");
    let err = parse_lines(&lines(&["AC D", "AY TMA", "AY TMA"])).unwrap_err();
    assert_eq!(err, "Could not set type (already defined)");
    let err = parse_lines(&lines(&["AC D", "AG TWR", "AG TWR"])).unwrap_err();
    assert_eq!(err, "Could not set call_sign (already defined)");
    let err = parse_lines(&lines(&["AC D", "AX 7000", "AX 7000"])).unwrap_err();
    assert_eq!(err, "Could not set transponder_code (already defined)");
    let err = parse_lines(&lines(&["AC D", "AA NONE", "AA NONE"])).unwrap_err();
    assert_eq!(err, "Could not set activation_times (already defined)");
}

#[test]
fn geometry_kind_conflicts_rejected() {
    // a point after a circle
    let err = parse_lines(&lines(&[
        "AC D",
        "AN X",
        "AL GND",
        "AH FL100",
        "V X=47:00:00 N 008:00:00 E",
        "DC 5",
        "DP 47:00:00 N 008:00:00 E",
    ]))
    .unwrap_err();
    assert_eq!(err, "Cannot add a point to a circle");

    // a circle after a polygon
    let err = parse_lines(&lines(&[
        "AC D",
        "AN X",
        "AL GND",
        "AH FL100",
        "DP 47:00:00 N 008:00:00 E",
        "V X=47:00:00 N 008:00:00 E",
        "DC 5",
    ]))
    .unwrap_err();
    assert_eq!(err, "Geometry already set");
}

#[test]
fn centerpoint_required() {
    let err = parse_lines(&lines(&["AC D", "AN X", "DC 5"])).unwrap_err();
    assert_eq!(err, "Centerpoint missing");
    let err = parse_lines(&lines(&["AC D", "AN X", "DA 10,0,90"])).unwrap_err();
    assert_eq!(err, "Centerpoint missing");
    let err = parse_lines(&lines(&[
        "AC D",
        "AN X",
        "DB 47:00:00 N 008:00:00 E, 46:00:00 N 008:00:00 E",
    ]))
    .unwrap_err();
    assert_eq!(err, "Centerpoint missing");
}

#[test]
fn missing_required_fields() {
    let err = parse_lines(&lines(&["AC D"])).unwrap_err();
    assert_eq!(err, "Missing name");
    let err = parse_lines(&lines(&["AC D", "AN Zone"])).unwrap_err();
    assert_eq!(err, "Missing lower bound for 'Zone'");
    let err = parse_lines(&lines(&["AC D", "AN Zone", "AL GND"])).unwrap_err();
    assert_eq!(err, "Missing upper bound for 'Zone'");
    let err = parse_lines(&lines(&["AC D", "AN Zone", "AL GND", "AH FL100"])).unwrap_err();
    assert_eq!(err, "Missing geom for 'Zone'");
}

#[test]
fn carry_over_variables() {
    // direction defaults to clockwise; a set direction is carried over
    let airspaces = parse_lines(&lines(&[
        "AC D",
        "AN Arcs",
        "AL GND",
        "AH FL100",
        "V X=47:00:00 N 008:00:00 E",
        "DA 10, 0, 90",
        "V D=-",
        "DA 10, 90, 180",
    ]))
    .unwrap();
    assert_eq!(airspaces.len(), 1);
    match &airspaces[0].geom {
        Geometry::Polygon { segments } => {
            assert_eq!(segments.len(), 2);
            match (&segments[0], &segments[1]) {
                (PolygonSegment::ArcSegment(a1), PolygonSegment::ArcSegment(a2)) => {
                    assert_eq!(a1.direction, Direction::Cw);
                    assert_eq!(a2.direction, Direction::Ccw);
                    assert_eq!(a1.centerpoint, a2.centerpoint);
                },
                _ => panic!("expected two arc segments"),
            }
        },
        _ => panic!("expected a polygon"),
    }
}

#[test]
fn no_class_yields_nothing() {
    // without a class declaration nothing is produced at end of input
    let airspaces = parse_lines(&lines(&["* just a comment", "", "SP 0,1,0,0,255"])).unwrap();
    assert_eq!(airspaces.len(), 0);
}

#[test]
fn bom_is_stripped() {
    let airspaces = parse_lines(&lines(&[
        "\u{feff}AC D",
        "AN Zone",
        "AL GND",
        "AH FL100",
        "DP 47:00:00 N 008:00:00 E",
    ]))
    .unwrap();
    assert_eq!(airspaces.len(), 1);
    assert_eq!(airspaces[0].name, "Zone");
}

#[test]
fn streaming_boundary() {
    // the streaming interface yields an airspace exactly when the next class
    // declaration arrives, and the new accumulator holds that class
    let mut p = Parser::new();
    assert_eq!(p.push_line("AC D").unwrap(), None);
    assert_eq!(p.push_line("AN One").unwrap(), None);
    assert_eq!(p.push_line("AL GND").unwrap(), None);
    assert_eq!(p.push_line("AH FL100").unwrap(), None);
    assert_eq!(p.push_line("DP 47:00:00 N 008:00:00 E").unwrap(), None);
    let first = p.push_line("AC Q").unwrap().expect("boundary yields the airspace");
    assert_eq!(first.name, "One");
    assert_eq!(p.push_line("AN Two").unwrap(), None);
    assert_eq!(p.push_line("AL GND").unwrap(), None);
    assert_eq!(p.push_line("AH FL100").unwrap(), None);
    assert_eq!(p.push_line("DP 46:00:00 N 008:00:00 E").unwrap(), None);
    let second = p.finish().unwrap().expect("the final airspace");
    assert_eq!(second.name, "Two");
    assert_eq!(second.class, Class::Danger);
    assert_eq!(p.finish().unwrap(), None);
}

#[test]
fn full_round_trip() {
    // a written file parses back to the same airspaces
    let input = lines(&[
        "AC CTR",
        "AY CTR",
        "AN Round Trip Zone",
        "AL 1000ft AMSL",
        "AH FL100",
        "AF 123.45",
        "AG TOWER",
        "AX 7000",
        "AA NONE",
        "V X=47:00:00 N 008:00:00 E",
        "DC 5",
    ]);
    let airspaces = parse_lines(&input).unwrap();
    let written = openair::write(&airspaces);
    let relines: Vec<String> = written.split("\r\n").map(|s| s.to_string()).collect();
    let reparsed = parse_lines(&relines).unwrap();
    assert_eq!(airspaces, reparsed);
}
