use tektii_gateway_core::decimal::Decimal;

#[test]
fn decimals_are_equal_by_value() {
    assert_eq!(Decimal::new(10, 1), Decimal::new(1, 0));
    assert_ne!(Decimal::new(10, 1), Decimal::new(10, 0));
    assert_eq!(Decimal::new(0, 5), Decimal::zero());
}

#[test]
fn decimals_are_ordered_by_value() {
    assert!(Decimal::new(-1, 0).less_than(&Decimal::zero()));
    assert!(Decimal::new(19, 1).less_than(&Decimal::new(2, 0)));
    assert!(!Decimal::new(20, 1).less_than(&Decimal::new(2, 0)));
    assert!(Decimal::new(1, 28).is_positive());
    assert!(!Decimal::zero().is_positive());
    assert!(Decimal::new(0, 3).is_zero());
}

#[test]
fn sums_and_differences() {
    assert_eq!(
        Decimal::new(15, 1).checked_plus(&Decimal::new(25, 2)),
        Some(Decimal::new(175, 2))
    );
    assert_eq!(
        Decimal::new(1, 0).checked_minus(&Decimal::new(25, 2)),
        Some(Decimal::new(75, 2))
    );
    assert_eq!(Decimal::new(1, 0).minus(&Decimal::new(3, 0)), Decimal::new(-2, 0));
    let max = Decimal::from_parts(79_228_162_514_264_337_593_543_950_335, 0).unwrap();
    assert_eq!(max.checked_plus(&max), None);
    assert_eq!(max.checked_minus(&max), Some(Decimal::zero()));
}

#[test]
fn parts_out_of_range_form_no_decimal() {
    assert_eq!(Decimal::from_parts(79_228_162_514_264_337_593_543_950_336, 0), None);
    assert_eq!(Decimal::from_parts(1, 29), None);
    let d = Decimal::from_parts(-125, 2).unwrap();
    assert_eq!(d.mantissa(), -125);
    assert_eq!(d.scale(), 2);
}

#[test]
fn magnitude_and_positive_part() {
    assert_eq!(Decimal::new(-5, 1).abs(), Decimal::new(5, 1));
    assert_eq!(Decimal::new(5, 1).abs(), Decimal::new(5, 1));
    assert!(Decimal::new(-5, 1).positive_part().is_zero());
    assert_eq!(Decimal::new(5, 1).positive_part(), Decimal::new(5, 1));
}

#[test]
fn text_form() {
    assert_eq!(Decimal::new(-125, 2).to_text(), "-1.25");
    assert_eq!(Decimal::new(10, 1).to_text(), "1.0");
    assert_eq!(Decimal::parse("0.75"), Some(Decimal::new(75, 2)));
    assert_eq!(Decimal::parse("-3"), Some(Decimal::new(-3, 0)));
    assert_eq!(Decimal::parse("three"), None);
    assert_eq!(Decimal::parse(""), None);
}

#[test]
fn decimals_are_written_out_with_all_their_places() {
    assert_eq!(Decimal::new(5, 3).to_text(), "0.005");
    assert_eq!(Decimal::new(0, 2).to_text(), "0.00");
    assert_eq!(Decimal::new(0, 0).to_text(), "0");
    assert_eq!(Decimal::new(-12345, 2).to_text(), "-123.45");
    assert_eq!(Decimal::new(-1, 28).to_text(), "-0.0000000000000000000000000001");
    let largest = Decimal::from_parts(79_228_162_514_264_337_593_543_950_335, 0).unwrap();
    assert_eq!(largest.to_text(), "79228162514264337593543950335");
}

#[test]
fn written_decimals_are_read_back() {
    let parts: Vec<(i128, u32)> = vec![
        (0, 0),
        (0, 28),
        (7, 0),
        (-7, 1),
        (1_000_000_000_000_000_000, 9),
        (79_228_162_514_264_337_593_543_950_335, 28),
        (-79_228_162_514_264_337_593_543_950_335, 0),
    ];
    for (mantissa, scale) in parts {
        let d = Decimal::from_parts(mantissa, scale).unwrap();
        let read = Decimal::parse(&d.to_text()).unwrap();
        assert_eq!((read.mantissa(), read.scale()), (mantissa, scale));
    }
}

#[test]
fn plain_decimals_are_read_as_they_stand() {
    let read = |text: &str| Decimal::parse(text).map(|d| (d.mantissa(), d.scale()));
    assert_eq!(read("+1.50"), Some((150, 2)));
    assert_eq!(read(".5"), Some((5, 1)));
    assert_eq!(read("-.5"), Some((-5, 1)));
    assert_eq!(read("5."), Some((5, 0)));
    assert_eq!(read("-0.0"), Some((0, 1)));
    assert_eq!(read("00000000000000000000000000000000000012"), Some((12, 0)));
    assert_eq!(read(""), None);
    assert_eq!(read("1-2"), None);
    assert_eq!(read("--5"), None);
    assert_eq!(read("5 "), None);
    assert_eq!(read("1.0000000000000000000000000000005z"), None);
}
