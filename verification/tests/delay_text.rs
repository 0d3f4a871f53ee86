//! Human-readable delay text: parsing, formatting, and the round trip.
use gpower_tweaks::delay::format_delay;
use gpower_tweaks::delay::parse_delay;

#[test]
fn five_minutes_parses_to_300000_ms() {
    assert_eq!(parse_delay("5 minutes").unwrap(), 300_000);
}

#[test]
fn five_minutes_formats_back_unchanged() {
    assert_eq!(format_delay(300_000), "5 minutes");
}

#[test]
fn bogus_fails_validation() {
    let f = parse_delay("bogus").unwrap_err();
    assert_eq!(f.input, "bogus");
    assert_eq!(f.message(), "not a valid delay: bogus");
}

#[test]
fn zero_spellings_parse_to_zero() {
    assert_eq!(parse_delay("0").unwrap(), 0);
    assert_eq!(parse_delay("Immediately").unwrap(), 0);
    assert_eq!(parse_delay("0 seconds").unwrap(), 0);
}

#[test]
fn seconds_and_singular_forms_parse() {
    assert_eq!(parse_delay("1 second").unwrap(), 1_000);
    assert_eq!(parse_delay("20 seconds").unwrap(), 20_000);
    assert_eq!(parse_delay("1 minute").unwrap(), 60_000);
    assert_eq!(parse_delay("250 ms").unwrap(), 250);
    assert_eq!(parse_delay("250 milliseconds").unwrap(), 250);
}

#[test]
fn surrounding_whitespace_is_ignored() {
    assert_eq!(parse_delay("  2 seconds\n").unwrap(), 2_000);
}

#[test]
fn missing_number_unit_or_space_fails() {
    assert!(parse_delay("minutes").is_err());
    assert!(parse_delay("5").is_err());
    assert!(parse_delay("5minutes").is_err());
    assert!(parse_delay("5 hours").is_err());
    assert!(parse_delay("").is_err());
    assert!(parse_delay("5 minutes extra").is_err());
}

#[test]
fn an_overflowing_delay_fails() {
    assert!(parse_delay("99999999999999999999 ms").is_err());
    assert!(parse_delay("18446744073709551616 ms").is_err());
    assert!(parse_delay("307445734561825861 minutes").is_err());
    assert_eq!(parse_delay("18446744073709551615 ms").unwrap(), u64::MAX);
}

#[test]
fn formatting_picks_the_largest_whole_unit() {
    assert_eq!(format_delay(0), "0 seconds");
    assert_eq!(format_delay(1_000), "1 second");
    assert_eq!(format_delay(2_000), "2 seconds");
    assert_eq!(format_delay(60_000), "1 minute");
    assert_eq!(format_delay(120_000), "2 minutes");
    assert_eq!(format_delay(90_000), "90 seconds");
    assert_eq!(format_delay(1_500), "1500 ms");
}

#[test]
fn formatted_delays_parse_back_to_the_same_value() {
    for ms in [0u64, 1, 999, 1_000, 1_001, 59_000, 60_000, 90_000, 300_000, u64::MAX] {
        assert_eq!(parse_delay(&format_delay(ms)).unwrap(), ms);
    }
}

#[test]
fn several_spaces_between_number_and_unit_parse() {
    assert_eq!(parse_delay("5   minutes").unwrap(), 300_000);
}
