use audio_player::numeric::{
    clamp_rate_milli, parse_rate_milli, speed_guard, MAX_RATE_MILLI, MIN_RATE_MILLI, SAT_MILLI,
};

#[test]
fn clamp_pins_low_values_to_the_lower_bound() {
    assert_eq!(clamp_rate_milli(99), MIN_RATE_MILLI);
    assert_eq!(clamp_rate_milli(0), MIN_RATE_MILLI);
    assert_eq!(clamp_rate_milli(-3000), MIN_RATE_MILLI);
}

#[test]
fn clamp_pins_high_values_to_the_upper_bound() {
    assert_eq!(clamp_rate_milli(2001), MAX_RATE_MILLI);
    assert_eq!(clamp_rate_milli(3500), MAX_RATE_MILLI);
    assert_eq!(clamp_rate_milli(i64::MAX), MAX_RATE_MILLI);
}

#[test]
fn clamp_keeps_values_inside_the_band() {
    assert_eq!(clamp_rate_milli(100), 100);
    assert_eq!(clamp_rate_milli(1500), 1500);
    assert_eq!(clamp_rate_milli(2000), 2000);
}

#[test]
fn parse_reads_plain_decimals() {
    assert_eq!(parse_rate_milli("1.5"), Some(1500));
    assert_eq!(parse_rate_milli("2"), Some(2000));
    assert_eq!(parse_rate_milli("0.1"), Some(100));
    assert_eq!(parse_rate_milli(".5"), Some(500));
    assert_eq!(parse_rate_milli("2."), Some(2000));
    assert_eq!(parse_rate_milli("+1.25"), Some(1250));
    assert_eq!(parse_rate_milli("-1"), Some(-1000));
    assert_eq!(parse_rate_milli("007"), Some(7000));
}

#[test]
fn parse_cuts_fraction_digits_beyond_the_third() {
    assert_eq!(parse_rate_milli("1.2345"), Some(1234));
    assert_eq!(parse_rate_milli("0.0009"), Some(0));
    assert_eq!(parse_rate_milli("1.23"), Some(1230));
}

#[test]
fn parse_rejects_non_decimals() {
    assert_eq!(parse_rate_milli("abc"), None);
    assert_eq!(parse_rate_milli(""), None);
    assert_eq!(parse_rate_milli("1e3"), None);
    assert_eq!(parse_rate_milli("1.2.3"), None);
    assert_eq!(parse_rate_milli("--1"), None);
    assert_eq!(parse_rate_milli("."), None);
    assert_eq!(parse_rate_milli("-"), None);
    assert_eq!(parse_rate_milli("-."), None);
    assert_eq!(parse_rate_milli("1a"), None);
    assert_eq!(parse_rate_milli(" 1"), None);
}

#[test]
fn parse_saturates_overlong_literals() {
    assert_eq!(parse_rate_milli("99999999999999999"), Some(SAT_MILLI));
    assert_eq!(parse_rate_milli("-99999999999999999"), Some(-SAT_MILLI));
    assert_eq!(parse_rate_milli("000000000000000001"), Some(1000));
}

#[test]
fn speed_guard_accepts_the_exclusive_band() {
    assert!(speed_guard(1));
    assert!(speed_guard(1000));
    assert!(speed_guard(1999));
    assert!(!speed_guard(0));
    assert!(!speed_guard(2000));
    assert!(!speed_guard(-500));
}
