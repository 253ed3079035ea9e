use weather::measure::Decimal;

fn value(d: Decimal) -> f64 {
    d.mantissa as f64 / 10f64.powi(d.scale as i32)
}

#[test]
fn parse_reads_numerals() {
    assert_eq!(Decimal::parse("16.1"), Some(Decimal { mantissa: 161, scale: 1 }));
    assert_eq!(Decimal::parse("1018"), Some(Decimal { mantissa: 1018, scale: 0 }));
    assert_eq!(Decimal::parse("-3.25"), Some(Decimal { mantissa: -325, scale: 2 }));
    assert_eq!(Decimal::parse("0"), Some(Decimal { mantissa: 0, scale: 0 }));
    assert_eq!(Decimal::parse("-0"), Some(Decimal { mantissa: 0, scale: 0 }));
    assert_eq!(Decimal::parse("0.0000001"), Some(Decimal { mantissa: 1, scale: 7 }));
}

#[test]
fn parse_refuses_other_text() {
    for t in ["", "-", ".5", "5.", "1.2.3", "1e5", "abc", "+1", "NaN", "inf", "1,5", " 1", "--1"] {
        assert_eq!(Decimal::parse(t), None, "{t}");
    }
}

#[test]
fn parse_length_limit() {
    assert_eq!(
        Decimal::parse("9999999999999999"),
        Some(Decimal { mantissa: 9_999_999_999_999_999, scale: 0 })
    );
    assert_eq!(Decimal::parse("99999999999999999"), None);
    assert_eq!(
        Decimal::parse("-99999999999999.9"),
        Some(Decimal { mantissa: -999_999_999_999_999, scale: 1 })
    );
    assert_eq!(Decimal::parse("-999999999999999.9"), None);
    assert_eq!(Decimal::parse("1234567890.1234567"), None);
}

#[test]
fn wind_speed_five_mps_is_eighteen_kph() {
    let mps = Decimal::parse("5.0").unwrap();
    let kph = mps.mps_to_kph();
    assert!((value(kph) - 18.0).abs() < 1e-9);
    assert_eq!(kph, Decimal { mantissa: 1800, scale: 2 });
}

#[test]
fn wind_speed_conversion_is_exact() {
    let kph = Decimal::parse("4.63").unwrap().mps_to_kph();
    assert_eq!(kph, Decimal { mantissa: 16668, scale: 3 });
    assert!((value(kph) - 16.668).abs() < 1e-9);
    let kph = Decimal::parse("-2").unwrap().mps_to_kph();
    assert_eq!(kph, Decimal { mantissa: -72, scale: 1 });
}

#[test]
fn range_check() {
    assert!(Decimal::parse("123.4").unwrap().is_in_range());
    assert!(!Decimal { mantissa: i64::MAX, scale: 0 }.is_in_range());
    assert!(!Decimal { mantissa: 1, scale: 5000 }.is_in_range());
    assert_eq!(Decimal::zero(), Decimal { mantissa: 0, scale: 0 });
}

#[test]
fn below_whole_numbers() {
    assert!(Decimal::parse("-0.1").unwrap().is_below_whole(0));
    assert!(!Decimal::parse("0.0").unwrap().is_below_whole(0));
    assert!(Decimal::parse("9.99").unwrap().is_below_whole(10));
    assert!(!Decimal::parse("10").unwrap().is_below_whole(10));
    assert!(!Decimal::parse("10.000").unwrap().is_below_whole(10));
    assert!(Decimal { mantissa: 5, scale: 40 }.is_below_whole(1));
    assert!(!Decimal { mantissa: 5, scale: 40 }.is_below_whole(0));
    assert!(Decimal { mantissa: -5, scale: 40 }.is_below_whole(0));
}
