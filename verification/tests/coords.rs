use openair::coords::Coord;

// One degree in milliarcseconds.
const DEG: i64 = 3_600_000;

fn mas(deg: i64, min: i64, sec: i64) -> i64 {
    deg * 3_600_000 + min * 60_000 + sec * 1_000
}

#[test]
fn parse_valid() {
    // With spaces
    assert_eq!(
        Coord::parse("46:51:44 N 009:19:42 E").unwrap(),
        Coord {
            lat_mas: mas(46, 51, 44),
            lng_mas: mas(9, 19, 42),
        }
    );

    // Without spaces
    assert_eq!(
        Coord::parse("46:51:44N 009:19:42E").unwrap(),
        Coord {
            lat_mas: mas(46, 51, 44),
            lng_mas: mas(9, 19, 42),
        }
    );

    // Dot between min and sec (decimal minutes)
    assert_eq!(
        Coord::parse("46:51.44 N 009:19.42 E").unwrap(),
        Coord {
            lat_mas: 46 * DEG + 51 * 60_000 + 26_400,
            lng_mas: 9 * DEG + 19 * 60_000 + 25_200,
        }
    );

    // South / west
    assert_eq!(
        Coord::parse("46:51:44 S 009:19:42 W").unwrap(),
        Coord {
            lat_mas: -mas(46, 51, 44),
            lng_mas: -mas(9, 19, 42),
        }
    );

    // Fractional part
    assert_eq!(
        Coord::parse("1:0:0.123 N 2:0:1.2 E").unwrap(),
        Coord {
            lat_mas: 1 * DEG + 123,
            lng_mas: 2 * DEG + 1_200,
        }
    );

    // Comma in between
    assert_eq!(
        Coord::parse("45:42:21 N, 000:38:41 W").unwrap(),
        Coord {
            lat_mas: mas(45, 42, 21),
            lng_mas: -mas(0, 38, 41),
        }
    );

    // Lowercase letters
    assert_eq!(
        Coord::parse("49:33:8 n 5:47:37 e").unwrap(),
        Coord {
            lat_mas: mas(49, 33, 8),
            lng_mas: mas(5, 47, 37),
        }
    );
}

#[test]
fn parse_boundary_validation() {
    // Latitude degree boundaries
    assert_eq!(
        Coord::parse("90:00:00 N 000:00:00 E").unwrap(),
        Coord {
            lat_mas: 90 * DEG,
            lng_mas: 0,
        }
    );
    assert_eq!(
        Coord::parse("91:00:00 N 000:00:00 E").unwrap_err(),
        "Invalid coord: \"91:00:00 N 000:00:00 E\""
    );

    // Longitude degree boundaries
    assert_eq!(
        Coord::parse("00:00:00 N 180:00:00 E").unwrap(),
        Coord {
            lat_mas: 0,
            lng_mas: 180 * DEG,
        }
    );
    assert_eq!(
        Coord::parse("00:00:00 N 181:00:00 E").unwrap_err(),
        "Invalid coord: \"00:00:00 N 181:00:00 E\""
    );

    // Single-digit latitude degrees
    assert_eq!(
        Coord::parse("5:00:00 N 000:00:00 E").unwrap(),
        Coord {
            lat_mas: 5 * DEG,
            lng_mas: 0,
        }
    );
}

#[test]
fn parse_invalid_minutes_seconds() {
    // Minutes >= 60 are accepted (real files contain them)
    assert_eq!(
        Coord::parse("42:60:00 N 001:00:00 E").unwrap(),
        Coord {
            lat_mas: 42 * DEG + 60 * 60_000,
            lng_mas: 1 * DEG,
        }
    );

    // Seconds >= 60 are accepted as well
    assert_eq!(
        Coord::parse("42:00:60 N 001:00:00 E").unwrap(),
        Coord {
            lat_mas: 42 * DEG + 60_000,
            lng_mas: 1 * DEG,
        }
    );
}

#[test]
fn parse_digit_count_limits() {
    // 3-digit latitude degrees should fail
    assert_eq!(
        Coord::parse("123:00:00 N 000:00:00 E").unwrap_err(),
        "Invalid coord: \"123:00:00 N 000:00:00 E\""
    );

    // 3-digit minutes should fail
    assert_eq!(
        Coord::parse("45:123:00 N 000:00:00 E").unwrap_err(),
        "Invalid coord: \"45:123:00 N 000:00:00 E\""
    );

    // 3-digit seconds should fail
    assert_eq!(
        Coord::parse("45:00:123 N 000:00:00 E").unwrap_err(),
        "Invalid coord: \"45:00:123 N 000:00:00 E\""
    );
}

#[test]
fn parse_invalid() {
    assert_eq!(
        Coord::parse("46:51:44 Q 009:19:42 R").unwrap_err(),
        "Invalid coord: \"46:51:44 Q 009:19:42 R\""
    );
    assert_eq!(
        Coord::parse("46x51x44 S 009x19x42 W").unwrap_err(),
        "Invalid coord: \"46x51x44 S 009x19x42 W\""
    );
}

#[test]
fn coord_round_trip_samples() {
    // whole arc-seconds within bounds survive a write-parse cycle
    for c in [
        Coord {
            lat_mas: mas(46, 51, 44),
            lng_mas: mas(9, 19, 42),
        },
        Coord {
            lat_mas: -mas(46, 51, 44),
            lng_mas: -mas(9, 19, 42),
        },
        Coord {
            lat_mas: 90 * DEG,
            lng_mas: -180 * DEG,
        },
        Coord {
            lat_mas: 0,
            lng_mas: 0,
        },
    ] {
        assert_eq!(Coord::parse(&c.write()).unwrap(), c);
    }
}

#[test]
fn write_rounds_to_arc_seconds() {
    // 499 thousandths round down, 500 round up (away from zero)
    let c = Coord {
        lat_mas: mas(10, 0, 0) + 499,
        lng_mas: mas(20, 0, 0) + 500,
    };
    assert_eq!(c.write(), "10:00:00 N 020:00:01 E");
    // carry propagation: 59.5 seconds round to a full minute
    let c = Coord {
        lat_mas: mas(10, 59, 59) + 500,
        lng_mas: -(mas(20, 59, 59) + 500),
    };
    assert_eq!(c.write(), "11:00:00 N 021:00:00 W");
}
