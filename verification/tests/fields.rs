use mackerel_plugin_ntp::decimal::Decimal;
use mackerel_plugin_ntp::interval::Interval;
use mackerel_plugin_ntp::reach::Reach;

#[test]
fn interval_suffixes_scale_to_seconds() {
    assert_eq!(Interval::from_str("35m"), Some(Interval { interval: 2100 }));
    assert_eq!(Interval::from_str("2h"), Some(Interval { interval: 7200 }));
    assert_eq!(Interval::from_str("1d"), Some(Interval { interval: 86400 }));
    assert_eq!(Interval::from_str("+7m"), Some(Interval { interval: 420 }));
}

#[test]
fn bare_intervals_normalize_to_themselves() {
    assert_eq!(Interval::from_str("512"), Some(Interval { interval: 512 }));
    assert_eq!(Interval::from_str("0"), Some(Interval { interval: 0 }));
    assert_eq!(Interval::from_str("+29"), Some(Interval { interval: 29 }));
    assert_eq!(
        Interval::from_str("18446744073709551615"),
        Some(Interval { interval: u64::MAX })
    );
}

#[test]
fn malformed_intervals_fail() {
    assert_eq!(Interval::from_str(""), None);
    assert_eq!(Interval::from_str("m"), None);
    assert_eq!(Interval::from_str("+"), None);
    assert_eq!(Interval::from_str("35mm"), None);
    assert_eq!(Interval::from_str("3.5"), None);
    assert_eq!(Interval::from_str("35w"), None);
    assert_eq!(Interval::from_str("18446744073709551616"), None);
}

#[test]
fn oversized_scaled_intervals_fail() {
    assert_eq!(
        Interval::from_str("307445734561825860m"),
        Some(Interval { interval: 18446744073709551600 })
    );
    assert_eq!(Interval::from_str("307445734561825861m"), None);
}

#[test]
fn reach_sums_digit_popcounts() {
    // 5 (101) + 1 (001) + 2 (010) = 4 set bits
    assert_eq!(Reach::from_str("512"), Reach { reach: 4 });
    // 1 (001) + 6 (110) = 3 set bits
    assert_eq!(Reach::from_str("16"), Reach { reach: 3 });
    // 3 (011) + 7 (111) + 7 (111) = 8 set bits
    assert_eq!(Reach::from_str("377"), Reach { reach: 8 });
    assert_eq!(Reach::from_str("0"), Reach { reach: 0 });
}

#[test]
fn reach_skips_non_octal_characters() {
    assert_eq!(Reach::from_str(""), Reach { reach: 0 });
    assert_eq!(Reach::from_str("9"), Reach { reach: 0 });
    assert_eq!(Reach::from_str("888"), Reach { reach: 0 });
    // only '1' and '7' contribute: 1 + 3 set bits
    assert_eq!(Reach::from_str("1a7"), Reach { reach: 4 });
}

#[test]
fn decimals_parse_exactly() {
    assert_eq!(
        Decimal::from_str("51.191"),
        Some(Decimal { negative: false, mantissa: 51191, scale: 3 })
    );
    assert_eq!(
        Decimal::from_str("-6.196"),
        Some(Decimal { negative: true, mantissa: 6196, scale: 3 })
    );
    assert_eq!(
        Decimal::from_str("+1.5"),
        Some(Decimal { negative: false, mantissa: 15, scale: 1 })
    );
    assert_eq!(
        Decimal::from_str("0.001"),
        Some(Decimal { negative: false, mantissa: 1, scale: 3 })
    );
    assert_eq!(Decimal::from_str("29"), Some(Decimal { negative: false, mantissa: 29, scale: 0 }));
    assert_eq!(Decimal::from_str("1."), Some(Decimal { negative: false, mantissa: 1, scale: 0 }));
    assert_eq!(Decimal::from_str(".5"), Some(Decimal { negative: false, mantissa: 5, scale: 1 }));
}

#[test]
fn malformed_decimals_fail() {
    assert_eq!(Decimal::from_str(""), None);
    assert_eq!(Decimal::from_str("."), None);
    assert_eq!(Decimal::from_str("-"), None);
    assert_eq!(Decimal::from_str("1.2.3"), None);
    assert_eq!(Decimal::from_str("12a"), None);
    assert_eq!(Decimal::from_str("--5"), None);
    assert_eq!(Decimal::from_str("1e3"), None);
}

#[test]
fn decimal_abs_discards_the_sign() {
    let d = Decimal { negative: true, mantissa: 6196, scale: 3 };
    assert_eq!(d.abs(), Decimal { negative: false, mantissa: 6196, scale: 3 });
    let p = Decimal { negative: false, mantissa: 1, scale: 0 };
    assert_eq!(p.abs(), p);
}
