use openair::altitude::Altitude;

#[test]
fn m2ft() {
    assert_eq!(Altitude::m2ft(0).unwrap(), 0);
    assert_eq!(Altitude::m2ft(1).unwrap(), 3);
    assert_eq!(Altitude::m2ft(2).unwrap(), 7);
    assert_eq!(Altitude::m2ft(100).unwrap(), 328);
    assert_eq!(Altitude::m2ft(654_553_015).unwrap(), 2_147_483_645);
    assert_eq!(Altitude::m2ft(-654_553_016).unwrap(), -2_147_483_648);
    assert!(Altitude::m2ft(654_553_016).is_err());
    assert!(Altitude::m2ft(-654_553_017).is_err());
}

#[test]
fn parse_gnd() {
    assert_eq!(Altitude::parse("gnd").unwrap(), Altitude::Gnd);
    assert_eq!(Altitude::parse("Gnd").unwrap(), Altitude::Gnd);
    assert_eq!(Altitude::parse("GND").unwrap(), Altitude::Gnd);
    assert_eq!(Altitude::parse("sfc").unwrap(), Altitude::Gnd);
    assert_eq!(Altitude::parse("Sfc").unwrap(), Altitude::Gnd);
    assert_eq!(Altitude::parse("SFC").unwrap(), Altitude::Gnd);
}

#[test]
fn parse_amsl() {
    assert_eq!(Altitude::parse("42 ft").unwrap(), Altitude::FeetAmsl(42));
    assert_eq!(Altitude::parse("42 FT").unwrap(), Altitude::FeetAmsl(42));
    assert_eq!(Altitude::parse("42ft").unwrap(), Altitude::FeetAmsl(42));
    assert_eq!(Altitude::parse("42  ft").unwrap(), Altitude::FeetAmsl(42));
    assert_eq!(
        Altitude::parse("42 ft AMSL").unwrap(),
        Altitude::FeetAmsl(42)
    );
}

#[test]
fn parse_agl() {
    assert_eq!(Altitude::parse("42 ft agl").unwrap(), Altitude::FeetAgl(42));
    assert_eq!(Altitude::parse("42FT Agl").unwrap(), Altitude::FeetAgl(42));
    assert_eq!(Altitude::parse("42 ft GND").unwrap(), Altitude::FeetAgl(42));
    assert_eq!(Altitude::parse("42 GND").unwrap(), Altitude::FeetAgl(42));
    assert_eq!(Altitude::parse("42SFC").unwrap(), Altitude::FeetAgl(42));
}

#[test]
fn parse_fl() {
    assert_eq!(Altitude::parse("fl50").unwrap(), Altitude::FlightLevel(50));
    assert_eq!(
        Altitude::parse("FL 180").unwrap(),
        Altitude::FlightLevel(180)
    );
    assert_eq!(
        Altitude::parse("FL130").unwrap(),
        Altitude::FlightLevel(130)
    );
}

#[test]
fn parse_msl_amsl_equivalence() {
    // MSL and AMSL should be treated identically
    assert_eq!(
        Altitude::parse("1000 MSL").unwrap(),
        Altitude::FeetAmsl(1000)
    );
    assert_eq!(
        Altitude::parse("1000 AMSL").unwrap(),
        Altitude::FeetAmsl(1000)
    );
    assert_eq!(
        Altitude::parse("1000msl").unwrap(),
        Altitude::FeetAmsl(1000)
    );
    assert_eq!(
        Altitude::parse("1000ft MSL").unwrap(),
        Altitude::FeetAmsl(1000)
    );
    assert_eq!(
        Altitude::parse("1000 ft AMSL").unwrap(),
        Altitude::FeetAmsl(1000)
    );
}

#[test]
fn parse_meters_amsl() {
    // Meters should be converted to feet
    assert_eq!(Altitude::parse("100m").unwrap(), Altitude::FeetAmsl(328));
    assert_eq!(Altitude::parse("100 m").unwrap(), Altitude::FeetAmsl(328));
    assert_eq!(
        Altitude::parse("100m MSL").unwrap(),
        Altitude::FeetAmsl(328)
    );
    assert_eq!(
        Altitude::parse("100 m AMSL").unwrap(),
        Altitude::FeetAmsl(328)
    );
}

#[test]
fn parse_meters_agl() {
    // Meters AGL should be converted to feet
    assert_eq!(Altitude::parse("100m agl").unwrap(), Altitude::FeetAgl(328));
    assert_eq!(
        Altitude::parse("100 m AGL").unwrap(),
        Altitude::FeetAgl(328)
    );
    assert_eq!(Altitude::parse("100m gnd").unwrap(), Altitude::FeetAgl(328));
    assert_eq!(
        Altitude::parse("100 m SFC").unwrap(),
        Altitude::FeetAgl(328)
    );
}

#[test]
fn parse_whitespace_variations() {
    // No space
    assert_eq!(Altitude::parse("1000ft").unwrap(), Altitude::FeetAmsl(1000));
    assert_eq!(Altitude::parse("100m").unwrap(), Altitude::FeetAmsl(328));

    // Single space
    assert_eq!(
        Altitude::parse("1000 ft").unwrap(),
        Altitude::FeetAmsl(1000)
    );
    assert_eq!(Altitude::parse("100 m").unwrap(), Altitude::FeetAmsl(328));

    // Multiple spaces
    assert_eq!(
        Altitude::parse("1000  ft").unwrap(),
        Altitude::FeetAmsl(1000)
    );
    assert_eq!(
        Altitude::parse("1000   ft   AMSL").unwrap(),
        Altitude::FeetAmsl(1000)
    );

    // Trailing spaces (from German data)
    assert_eq!(
        Altitude::parse("1000ft MSL ").unwrap(),
        Altitude::FeetAmsl(1000)
    );
}

#[test]
fn parse_case_variations() {
    // Mixed case for all keywords
    assert_eq!(Altitude::parse("1000FT").unwrap(), Altitude::FeetAmsl(1000));
    assert_eq!(Altitude::parse("1000Ft").unwrap(), Altitude::FeetAmsl(1000));
    assert_eq!(Altitude::parse("1000fT").unwrap(), Altitude::FeetAmsl(1000));
    assert_eq!(Altitude::parse("100M").unwrap(), Altitude::FeetAmsl(328));
    assert_eq!(
        Altitude::parse("1000 Msl").unwrap(),
        Altitude::FeetAmsl(1000)
    );
    assert_eq!(
        Altitude::parse("1000 aMsL").unwrap(),
        Altitude::FeetAmsl(1000)
    );
    assert_eq!(
        Altitude::parse("1000 AgL").unwrap(),
        Altitude::FeetAgl(1000)
    );
}

#[test]
fn parse_unparseable() {
    // Truly unparseable inputs should become Other
    assert_eq!(
        Altitude::parse("something random").unwrap(),
        Altitude::Other("something random".to_string())
    );
    assert_eq!(
        Altitude::parse("1000xyz").unwrap(),
        Altitude::Other("1000xyz".to_string())
    );
}

fn write_altitude(altitude: &Altitude) -> String {
    altitude.write()
}

#[test]
fn write() {
    assert_eq!(write_altitude(&Altitude::Gnd), "GND");
    assert_eq!(write_altitude(&Altitude::FeetAmsl(5000)), "5000ft AMSL");
    assert_eq!(write_altitude(&Altitude::FeetAmsl(-200)), "-200ft AMSL");
    assert_eq!(write_altitude(&Altitude::FeetAgl(1500)), "1500ft AGL");
    assert_eq!(write_altitude(&Altitude::FlightLevel(195)), "FL195");
    assert_eq!(write_altitude(&Altitude::Unlimited), "UNLIM");
    assert_eq!(
        write_altitude(&Altitude::Other("custom".to_string())),
        "custom"
    );
}

#[test]
fn alt_round_trip_samples() {
    // every variant except the lenient fallback survives a write-parse cycle
    for alt in [
        Altitude::Gnd,
        Altitude::FeetAmsl(0),
        Altitude::FeetAmsl(12345),
        Altitude::FeetAgl(7),
        Altitude::FlightLevel(0),
        Altitude::FlightLevel(65535),
        Altitude::Unlimited,
    ] {
        assert_eq!(Altitude::parse(&alt.write()).unwrap(), alt);
    }
}

#[test]
fn parse_zero_literal() {
    assert_eq!(Altitude::parse("0").unwrap(), Altitude::Gnd);
    assert_eq!(Altitude::parse("UNL").unwrap(), Altitude::Unlimited);
    assert_eq!(Altitude::parse("unltd").unwrap(), Altitude::Unlimited);
    assert_eq!(Altitude::parse("Unlimited").unwrap(), Altitude::Unlimited);
}

#[test]
fn meters_out_of_range_is_error() {
    // the only altitude input that is a hard failure
    let err = Altitude::parse("999999999m").unwrap_err();
    assert_eq!(err, "m2ft out of bounds (too large)");
}
