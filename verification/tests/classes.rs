use openair::classes::Class;

#[test]
fn to_str() {
    assert_eq!(Class::A.to_str(), "A");
    assert_eq!(Class::B.to_str(), "B");
    assert_eq!(Class::C.to_str(), "C");
    assert_eq!(Class::D.to_str(), "D");
    assert_eq!(Class::E.to_str(), "E");
    assert_eq!(Class::F.to_str(), "F");
    assert_eq!(Class::G.to_str(), "G");
    assert_eq!(Class::Ctr.to_str(), "CTR");
    assert_eq!(Class::Restricted.to_str(), "R");
    assert_eq!(Class::Danger.to_str(), "Q");
    assert_eq!(Class::Prohibited.to_str(), "P");
    assert_eq!(Class::GliderProhibited.to_str(), "GP");
    assert_eq!(Class::WaveWindow.to_str(), "W");
    assert_eq!(Class::RadioMandatoryZone.to_str(), "RMZ");
    assert_eq!(Class::TransponderMandatoryZone.to_str(), "TMZ");
    assert_eq!(Class::Unclassified.to_str(), "UNC");
}

#[test]
fn parse_codes() {
    // every code maps back to its class
    for class in [
        Class::A,
        Class::B,
        Class::C,
        Class::D,
        Class::E,
        Class::F,
        Class::G,
        Class::Ctr,
        Class::Restricted,
        Class::Danger,
        Class::Prohibited,
        Class::GliderProhibited,
        Class::WaveWindow,
        Class::RadioMandatoryZone,
        Class::TransponderMandatoryZone,
        Class::Unclassified,
    ] {
        assert_eq!(Class::parse(class.to_str()).unwrap(), class);
    }
    // the vocabulary is case sensitive and closed
    assert_eq!(Class::parse("a").unwrap_err(), "Invalid class: a");
    assert_eq!(Class::parse("X").unwrap_err(), "Invalid class: X");
    assert_eq!(Class::parse("").unwrap_err(), "Invalid class: ");
}
