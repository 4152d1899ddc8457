use openair::activations::{ActivationTimes, Date, DateTime, Time};

fn utc(year: i32, month: u32, day: u32, hour: u32, minute: u32) -> DateTime {
    DateTime {
        date: Date::Ymd { year, month, day },
        time: Time {
            hour,
            minute,
            second: 0,
            millisecond: 0,
            tz_offset_hours: 0,
            tz_offset_minutes: 0,
        },
    }
}

#[test]
fn test_parse() {
    // Active from 12:00 to 13:00 UTC
    assert_eq!(
        ActivationTimes::from_str("2023-12-16T12:00Z/2023-12-16T13:00Z").unwrap(),
        ActivationTimes::new(Some(utc(2023, 12, 16, 12, 0)), Some(utc(2023, 12, 16, 13, 0)))
    );
    // Active for the entire UTC day
    assert_eq!(
        ActivationTimes::from_str("2024-12-17T00:00Z/2024-12-17T24:00Z").unwrap(),
        ActivationTimes::new(Some(utc(2024, 12, 17, 0, 0)), Some(utc(2024, 12, 17, 24, 0)))
    );
    // Active from midnight UTC until unspecified end
    assert_eq!(
        ActivationTimes::from_str("2024-12-17T00:00Z/NONE").unwrap(),
        ActivationTimes::new(Some(utc(2024, 12, 17, 0, 0)), None)
    );
    // Active until midnight UTC, with unknown start
    assert_eq!(
        ActivationTimes::from_str("NONE/2024-12-18T00:00Z").unwrap(),
        ActivationTimes::new(None, Some(utc(2024, 12, 18, 0, 0)))
    );
    // No defined time - inactive
    assert_eq!(
        ActivationTimes::from_str("NONE").unwrap(),
        ActivationTimes::none()
    );
}

#[test]
fn write_activation_forms() {
    assert_eq!(ActivationTimes::none().write(), "NONE");
    assert_eq!(
        ActivationTimes::new(Some(utc(2023, 12, 16, 12, 0)), None).write(),
        "2023-12-16T12:00:00.0+00:00/NONE"
    );
    assert_eq!(
        ActivationTimes::new(None, Some(utc(2023, 1, 2, 3, 4))).write(),
        "NONE/2023-01-02T03:04:00.0+00:00"
    );
}

#[test]
fn parse_errors() {
    assert_eq!(
        ActivationTimes::from_str("whenever").unwrap_err(),
        "Invalid activation times record: whenever"
    );
    assert_eq!(
        ActivationTimes::from_str("NONE/soon").unwrap_err(),
        "Failed to parse datetime: soon"
    );
}
