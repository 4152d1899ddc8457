use openair::decimal::Decimal;

fn milli(m: i64) -> Decimal {
    Decimal { milli: m }
}

#[test]
fn parse_decimal_forms() {
    assert_eq!(Decimal::parse("5").unwrap(), milli(5_000));
    assert_eq!(Decimal::parse("0").unwrap(), milli(0));
    assert_eq!(Decimal::parse("2.5").unwrap(), milli(2_500));
    assert_eq!(Decimal::parse("0.125").unwrap(), milli(125));
    assert_eq!(Decimal::parse(".5").unwrap(), milli(500));
    assert_eq!(Decimal::parse("5.").unwrap(), milli(5_000));
    assert_eq!(Decimal::parse("-10").unwrap(), milli(-10_000));
    assert_eq!(Decimal::parse("+3.25").unwrap(), milli(3_250));
    // digits beyond the resolution are ignored
    assert_eq!(Decimal::parse("1.23456").unwrap(), milli(1_234));
}

#[test]
fn parse_decimal_rejects() {
    assert_eq!(Decimal::parse(""), None);
    assert_eq!(Decimal::parse("."), None);
    assert_eq!(Decimal::parse("-"), None);
    assert_eq!(Decimal::parse("abc"), None);
    assert_eq!(Decimal::parse("1.2.3"), None);
    assert_eq!(Decimal::parse("5 "), None);
}

#[test]
fn write_decimal_forms() {
    assert_eq!(milli(5_000).write(), "5");
    assert_eq!(milli(0).write(), "0");
    assert_eq!(milli(2_500).write(), "2.5");
    assert_eq!(milli(125).write(), "0.125");
    assert_eq!(milli(-10_000).write(), "-10");
    assert_eq!(milli(360_000).write(), "360");
    assert_eq!(milli(270_010).write(), "270.01");
    // a written decimal parses back to itself
    for m in [0i64, 1, 10, 100, 5_000, -2_500, 123_456_789] {
        assert_eq!(Decimal::parse(&milli(m).write()).unwrap(), milli(m));
    }
}
