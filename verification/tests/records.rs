use openair::activations::ActivationTimes;
use openair::altitude::Altitude;
use openair::classes::Class;
use openair::coords::Coord;
use openair::decimal::Decimal;
use openair::geometry::Direction;
use openair::record::Record;

fn milli(m: i64) -> Decimal {
    Decimal { milli: m }
}

#[test]
fn parse_arc_segment_ok() {
    assert_eq!(
        Record::parse("DA 10,270,290").unwrap(),
        Record::ArcSegmentData {
            radius: milli(10_000),
            angle_start: milli(270_000),
            angle_end: milli(290_000),
        }
    );

    assert_eq!(
        Record::parse("DA 23,0,30").unwrap(),
        Record::ArcSegmentData {
            radius: milli(23_000),
            angle_start: milli(0),
            angle_end: milli(30_000),
        }
    );
}

#[test]
fn parse_arc_segment_with_spaces() {
    assert_eq!(
        Record::parse("DA  10 ,    270 ,290").unwrap(),
        Record::ArcSegmentData {
            radius: milli(10_000),
            angle_start: milli(270_000),
            angle_end: milli(290_000),
        }
    );
}

#[test]
fn parse_arc_segment_invalid_too_many() {
    assert_eq!(
        Record::parse("DA  10 ,    270 ,290,").unwrap_err(),
        "Invalid arc segment data: 10 ,    270 ,290,"
    );
}

#[test]
fn parse_arc_segment_invalid_angle_too_large() {
    assert_eq!(
        Record::parse("DA 10,270,361").unwrap_err(),
        "Angle 361 too large"
    );
}

#[test]
fn parse_arc_segment_invalid_angle_negative() {
    assert_eq!(
        Record::parse("DA 10,270,-10").unwrap_err(),
        "Angle -10 is negative"
    );
}

#[test]
fn parse_arc_segment_angle_bounds() {
    // 0 and 360 are both accepted
    assert_eq!(
        Record::parse("DA 5,0,360").unwrap(),
        Record::ArcSegmentData {
            radius: milli(5_000),
            angle_start: milli(0),
            angle_end: milli(360_000),
        }
    );
    assert_eq!(
        Record::parse("DA 5,360.001,0").unwrap_err(),
        "Angle 360.001 too large"
    );
    assert_eq!(
        Record::parse("DA 5,-0.5,0").unwrap_err(),
        "Angle -0.5 is negative"
    );
}

fn write_record(record: Record) -> String {
    record.write()
}

#[test]
fn write_airspace_class() {
    assert_eq!(write_record(Record::AirspaceClass(Class::A)), "AC A\r\n");
    assert_eq!(
        write_record(Record::AirspaceClass(Class::Ctr)),
        "AC CTR\r\n"
    );
}

#[test]
fn write_airspace_type() {
    assert_eq!(write_record(Record::AirspaceType("MATZ")), "AY MATZ\r\n");
}

#[test]
fn write_airspace_name() {
    assert_eq!(
        write_record(Record::AirspaceName("Test Zone")),
        "AN Test Zone\r\n"
    );
}

#[test]
fn write_bounds() {
    assert_eq!(
        write_record(Record::LowerBound(Altitude::Gnd)),
        "AL GND\r\n"
    );
    assert_eq!(
        write_record(Record::UpperBound(Altitude::FlightLevel(195))),
        "AH FL195\r\n"
    );
}

#[test]
fn write_frequency() {
    assert_eq!(write_record(Record::Frequency("123.45")), "AF 123.45\r\n");
}

#[test]
fn write_call_sign() {
    assert_eq!(write_record(Record::CallSign("TOWER")), "AG TOWER\r\n");
}

#[test]
fn write_transponder_code() {
    assert_eq!(write_record(Record::TransponderCode(7000)), "AX 7000\r\n");
}

#[test]
fn write_activation_times() {
    let times = ActivationTimes::from_str("2023-12-16T12:00Z/2023-12-16T13:00Z").unwrap();
    assert_eq!(
        write_record(Record::ActivationTimes(times)),
        "AA 2023-12-16T12:00:00.0+00:00/2023-12-16T13:00:00.0+00:00\r\n"
    );
}

#[test]
fn write_unknown_extension() {
    assert_eq!(
        write_record(Record::UnknownExtension("AZ custom data")),
        "AZ custom data\r\n"
    );
}

#[test]
fn write_var_x() {
    let coord = Coord {
        lat_mas: 46 * 3_600_000 + 51 * 60_000 + 44_000,
        lng_mas: 9 * 3_600_000 + 19 * 60_000 + 42_000,
    };
    assert_eq!(
        write_record(Record::VarX(coord)),
        "V X=46:51:44 N 009:19:42 E\r\n"
    );
}

#[test]
fn write_var_d() {
    assert_eq!(write_record(Record::VarD(Direction::Cw)), "V D=+\r\n");
    assert_eq!(write_record(Record::VarD(Direction::Ccw)), "V D=-\r\n");
}

#[test]
fn write_point() {
    let coord = Coord {
        lat_mas: 46 * 3_600_000 + 51 * 60_000 + 44_000,
        lng_mas: 9 * 3_600_000 + 19 * 60_000 + 42_000,
    };
    assert_eq!(
        write_record(Record::Point(coord)),
        "DP 46:51:44 N 009:19:42 E\r\n"
    );
}

#[test]
fn write_circle_radius() {
    assert_eq!(write_record(Record::CircleRadius(milli(5_000))), "DC 5\r\n");
}

#[test]
fn write_arc_segment_data() {
    assert_eq!(
        write_record(Record::ArcSegmentData {
            radius: milli(10_000),
            angle_start: milli(270_000),
            angle_end: milli(290_000),
        }),
        "DA 10, 270, 290\r\n"
    );
}

#[test]
fn write_arc_data() {
    let start = Coord {
        lat_mas: 46 * 3_600_000 + 51 * 60_000 + 44_000,
        lng_mas: 9 * 3_600_000 + 19 * 60_000 + 42_000,
    };
    let end = Coord {
        lat_mas: 47 * 3_600_000,
        lng_mas: 9 * 3_600_000 + 30 * 60_000,
    };
    assert_eq!(
        write_record(Record::ArcData { start, end }),
        "DB 46:51:44 N 009:19:42 E, 47:00:00 N 009:30:00 E\r\n"
    );
}

#[test]
fn write_empty() {
    assert_eq!(write_record(Record::Empty), "\r\n");
}

#[test]
fn write_ignored_records() {
    assert_eq!(write_record(Record::Comment), "");
    assert_eq!(write_record(Record::LabelPlacement), "");
    assert_eq!(write_record(Record::Pen), "");
    assert_eq!(write_record(Record::Brush), "");
}

#[test]
fn parse_simple_records() {
    assert_eq!(Record::parse("").unwrap(), Record::Empty);
    assert_eq!(Record::parse("   ").unwrap(), Record::Empty);
    assert_eq!(Record::parse("* a comment").unwrap(), Record::Comment);
    assert_eq!(Record::parse("AT 47:00:00 N 008:00:00 E").unwrap(), Record::LabelPlacement);
    assert_eq!(Record::parse("SP 0,1,0,0,255").unwrap(), Record::Pen);
    assert_eq!(Record::parse("SB -1,-1,-1").unwrap(), Record::Brush);
    assert_eq!(Record::parse("AC D").unwrap(), Record::AirspaceClass(Class::D));
    assert_eq!(Record::parse("AN Test Zone").unwrap(), Record::AirspaceName("Test Zone"));
    assert_eq!(
        Record::parse("AZ custom data").unwrap(),
        Record::UnknownExtension("AZ custom data")
    );
    assert_eq!(Record::parse("AL 100m AGL").unwrap(), Record::LowerBound(Altitude::FeetAgl(328)));
    assert_eq!(Record::parse("DC 5").unwrap(), Record::CircleRadius(milli(5_000)));
    assert_eq!(Record::parse("V D=+").unwrap(), Record::VarD(Direction::Cw));
    assert_eq!(Record::parse("V D=-").unwrap(), Record::VarD(Direction::Ccw));
}

#[test]
fn parse_error_records() {
    assert_eq!(
        Record::parse("ZZ foo").unwrap_err(),
        "Parse error (unexpected \"ZZ\")"
    );
    assert_eq!(
        Record::parse("AC ZZZ").unwrap_err(),
        "Invalid class: ZZZ"
    );
    assert_eq!(
        Record::parse("AX abc").unwrap_err(),
        "Invalid transponder code: abc"
    );
    assert_eq!(
        Record::parse("DC abc").unwrap_err(),
        "Invalid radius: abc"
    );
    assert_eq!(
        Record::parse("V D=?").unwrap_err(),
        "Invalid direction: ?"
    );
    assert_eq!(
        Record::parse("DB 46:51:44 N 009:19:42 E").unwrap_err(),
        "Invalid arc data: 46:51:44 N 009:19:42 E"
    );
    assert_eq!(
        Record::parse("AA garbage").unwrap_err(),
        "Invalid activation times record: garbage"
    );
    assert_eq!(
        Record::parse("AA bad/NONE").unwrap_err(),
        "Failed to parse datetime: bad"
    );
}

#[test]
fn is_header() {
    assert!(Record::AirspaceClass(Class::A).is_header());
    assert!(Record::AirspaceName("x").is_header());
    assert!(Record::LowerBound(Altitude::Gnd).is_header());
    assert!(Record::UpperBound(Altitude::Gnd).is_header());
    assert!(Record::AirspaceType("x").is_header());
    assert!(Record::Frequency("x").is_header());
    assert!(Record::CallSign("x").is_header());
    assert!(Record::TransponderCode(7).is_header());
    assert!(Record::ActivationTimes(ActivationTimes::none()).is_header());
    assert!(Record::UnknownExtension("AZ x").is_header());
    assert!(!Record::Empty.is_header());
    assert!(!Record::Comment.is_header());
    assert!(!Record::VarD(Direction::Cw).is_header());
    assert!(!Record::CircleRadius(milli(1_000)).is_header());
}
