use config_types::chrono_types::duration::{ConfigDuration, InvalidDurationError, Unit};
use config_types::decimal::MagnitudeFault;
use config_types::error::ParseErrorKind;
use regex::Regex;
use std::cmp::Ordering;

const SECOND: i64 = 1000;
const MINUTE: i64 = 60 * SECOND;
const HOUR: i64 = 60 * MINUTE;
const DAY: i64 = 24 * HOUR;

fn duration_regex() -> Regex {
    Unit::build_regex().expect("the pattern of the duration units compiles")
}

fn read(s: &str) -> Result<ConfigDuration, InvalidDurationError> {
    ConfigDuration::from_str(&duration_regex(), s)
}

fn alike(a: ConfigDuration, b: ConfigDuration) -> bool {
    a.duration == b.duration && a.unit == b.unit
}

fn pieces(magnitude: Option<&str>, unit: Option<&str>) -> Option<(Option<String>, Option<String>)> {
    Some((magnitude.map(String::from), unit.map(String::from)))
}

#[test]
fn duration_pattern_is_the_alternation_of_the_suffixes() {
    assert_eq!(Unit::create_regex_string(), "(?<magnitude>[0-9]+)(?<unit>ms|s|m|h|d)?");
}

#[test]
fn duration_regex_is_compiled_from_the_pattern() {
    assert_eq!(duration_regex().as_str(), Unit::create_regex_string());
}

#[test]
fn duration_units_are_listed_in_declaration_order() {
    assert_eq!(
        Unit::all_units(),
        vec![Unit::Milliseconds, Unit::Seconds, Unit::Minutes, Unit::Hours, Unit::Days]
    );
    assert_eq!(Unit::default(), Unit::Milliseconds);
}

#[test]
fn duration_suffixes_and_scales() {
    assert_eq!(Unit::Milliseconds.suffix(), "ms");
    assert_eq!(Unit::Seconds.suffix(), "s");
    assert_eq!(Unit::Minutes.suffix(), "m");
    assert_eq!(Unit::Hours.suffix(), "h");
    assert_eq!(Unit::Days.suffix(), "d");
    assert_eq!(Unit::Milliseconds.scale(), 1);
    assert_eq!(Unit::Seconds.scale(), 1000);
    assert_eq!(Unit::Minutes.scale(), 60_000);
    assert_eq!(Unit::Hours.scale(), 3_600_000);
    assert_eq!(Unit::Days.scale(), 86_400_000);
}

#[test]
fn duration_suffix_resolves_to_its_unit() {
    for unit in Unit::all_units() {
        assert_eq!(Unit::from_str(unit.suffix()), Ok(unit));
    }
}

#[test]
fn duration_unknown_suffix_is_unrecognized() {
    for text in ["xyz", "", "mm", "sm", "S", "ms ", "min", "hd"] {
        let error = Unit::from_str(text).unwrap_err();
        assert_eq!(error.kind, ParseErrorKind::UnrecognizedUnit);
        assert_eq!(error.text, text);
    }
}

#[test]
fn duration_round_trips_through_its_text() {
    let regex = duration_regex();
    for unit in Unit::all_units() {
        for magnitude in [0i64, 1, 100, 9999] {
            let value = ConfigDuration { duration: magnitude * unit.scale() as i64, unit };
            let text = value.to_string();
            assert_eq!(text, format!("{}{}", magnitude, unit.suffix()));
            let back = ConfigDuration::from_str(&regex, &text).unwrap();
            assert!(alike(back, value));
            assert_eq!(back.to_string(), text);
        }
    }
}

#[test]
fn duration_bare_magnitude_is_in_milliseconds() {
    for magnitude in [0i64, 1, 100, 9999] {
        let back = read(&format!("{}", magnitude)).unwrap();
        assert!(alike(back, ConfigDuration { duration: magnitude, unit: Unit::Milliseconds }));
    }
}

#[test]
fn duration_milliseconds_are_not_taken_for_minutes_or_seconds() {
    let back = read("100ms").unwrap();
    assert!(alike(back, ConfigDuration { duration: 100, unit: Unit::Milliseconds }));
    assert!(alike(read("100m").unwrap(), ConfigDuration { duration: 100 * MINUTE, unit: Unit::Minutes }));
    assert!(alike(read("100s").unwrap(), ConfigDuration { duration: 100 * SECOND, unit: Unit::Seconds }));
}

#[test]
fn duration_concrete_texts() {
    assert!(alike(read("10d").unwrap(), ConfigDuration { duration: 10 * DAY, unit: Unit::Days }));
    assert!(alike(read("5s").unwrap(), ConfigDuration { duration: 5 * SECOND, unit: Unit::Seconds }));
    assert!(alike(read("2h").unwrap(), ConfigDuration { duration: 2 * HOUR, unit: Unit::Hours }));
    assert_eq!(ConfigDuration { duration: 2 * HOUR, unit: Unit::Hours }.to_string(), "2h");
    assert_eq!(ConfigDuration { duration: 864_000_000, unit: Unit::Days }.to_string(), "10d");
    assert_eq!(ConfigDuration { duration: 0, unit: Unit::Minutes }.to_string(), "0m");
}

#[test]
fn duration_is_written_in_whole_units() {
    assert_eq!(ConfigDuration { duration: 2 * HOUR + 59 * MINUTE, unit: Unit::Hours }.to_string(), "2h");
    assert_eq!(ConfigDuration { duration: 1999, unit: Unit::Seconds }.to_string(), "1s");
    assert_eq!(ConfigDuration { duration: 999, unit: Unit::Seconds }.to_string(), "0s");
    assert_eq!(ConfigDuration { duration: 90 * MINUTE, unit: Unit::Minutes }.to_string(), "90m");
    assert_eq!(ConfigDuration { duration: i64::MAX, unit: Unit::Milliseconds }.to_string(), "9223372036854775807ms");
    assert_eq!(ConfigDuration { duration: i64::MAX, unit: Unit::Days }.to_string(), "106751991167d");
}

#[test]
fn duration_below_zero_is_written_with_its_sign() {
    assert_eq!(ConfigDuration { duration: -1500, unit: Unit::Seconds }.to_string(), "-1s");
    assert_eq!(ConfigDuration { duration: -500, unit: Unit::Seconds }.to_string(), "0s");
    assert_eq!(ConfigDuration { duration: -2 * HOUR, unit: Unit::Hours }.to_string(), "-2h");
    assert_eq!(ConfigDuration { duration: i64::MIN, unit: Unit::Milliseconds }.to_string(), "-9223372036854775808ms");
    assert_eq!(ConfigDuration { duration: i64::MIN, unit: Unit::Days }.to_string(), "-106751991167d");
}

#[test]
fn duration_written_text_is_stable() {
    let regex = duration_regex();
    for unit in Unit::all_units() {
        for ticks in [0i64, 1, 999, 1001, 59_999, 3_600_001, 86_399_999, 86_400_000, i64::MAX] {
            let text = ConfigDuration { duration: ticks, unit }.to_string();
            let back = ConfigDuration::from_str(&regex, &text).unwrap();
            assert_eq!(back.to_string(), text);
            assert_eq!(back.unit, unit);
        }
    }
}

#[test]
fn duration_without_a_magnitude_is_malformed() {
    for text in ["abc", "", "ms", " ", "-", "h"] {
        let error = read(text).unwrap_err();
        assert_eq!(error.kind, ParseErrorKind::MalformedInput);
        assert_eq!(error.text, text);
        assert_eq!(error.message(), "Unable to parse duration");
    }
}

#[test]
fn duration_magnitude_beyond_the_canonical_value_is_invalid() {
    let digits = "9223372036854775808";
    let error = read(digits).unwrap_err();
    assert_eq!(error.kind, ParseErrorKind::InvalidMagnitude(MagnitudeFault::TooLarge));
    assert_eq!(error.text, digits);
    assert_eq!(error.message(), "Invalid Size");
    assert!(alike(
        read("9223372036854775807").unwrap(),
        ConfigDuration { duration: i64::MAX, unit: Unit::Milliseconds }
    ));
    assert!(alike(
        read("9223372036854775s").unwrap(),
        ConfigDuration { duration: 9_223_372_036_854_775_000, unit: Unit::Seconds }
    ));
    let seconds = read("9223372036854776s").unwrap_err();
    assert_eq!(seconds.kind, ParseErrorKind::InvalidMagnitude(MagnitudeFault::TooLarge));
    assert_eq!(seconds.text, "9223372036854776");
    assert!(alike(
        read("106751991167d").unwrap(),
        ConfigDuration { duration: 106_751_991_167 * DAY, unit: Unit::Days }
    ));
    let days = read("106751991168d").unwrap_err();
    assert_eq!(days.kind, ParseErrorKind::InvalidMagnitude(MagnitudeFault::TooLarge));
    assert_eq!(days.text, "106751991168");
}

fn refused(s: &str) -> (ParseErrorKind, String) {
    let error = read(s).unwrap_err();
    (error.kind, error.text)
}

#[test]
fn duration_text_after_the_magnitude_that_is_no_suffix_is_unrecognized() {
    assert_eq!(refused("100xyz"), (ParseErrorKind::UnrecognizedUnit, String::from("xyz")));
    assert_eq!(refused("1h30m"), (ParseErrorKind::UnrecognizedUnit, String::from("h30m")));
    assert_eq!(refused("1.5s"), (ParseErrorKind::UnrecognizedUnit, String::from(".5s")));
    assert_eq!(refused("7mm"), (ParseErrorKind::UnrecognizedUnit, String::from("mm")));
    assert_eq!(refused("7sm"), (ParseErrorKind::UnrecognizedUnit, String::from("sm")));
    assert_eq!(refused("7msm"), (ParseErrorKind::UnrecognizedUnit, String::from("msm")));
    assert_eq!(refused("5s "), (ParseErrorKind::UnrecognizedUnit, String::from("s ")));
    assert_eq!(refused("5 s"), (ParseErrorKind::UnrecognizedUnit, String::from(" s")));
    assert_eq!(refused("5S"), (ParseErrorKind::UnrecognizedUnit, String::from("S")));
    assert_eq!(refused("5min"), (ParseErrorKind::UnrecognizedUnit, String::from("min")));
    assert_eq!(refused("3d4"), (ParseErrorKind::UnrecognizedUnit, String::from("d4")));
}

#[test]
fn duration_text_before_the_magnitude_is_malformed() {
    for text in ["-5s", "+5s", " 5s", "in 3d", "ms5", ".5s", "h1"] {
        assert_eq!(refused(text), (ParseErrorKind::MalformedInput, String::from(text)));
    }
}

#[test]
fn duration_below_zero_is_written_but_not_read() {
    let text = ConfigDuration { duration: -2 * HOUR, unit: Unit::Hours }.to_string();
    assert_eq!(text, "-2h");
    assert_eq!(refused(&text), (ParseErrorKind::MalformedInput, String::from("-2h")));
}

#[test]
fn duration_is_read_only_from_digits_and_at_most_one_suffix() {
    let regex = duration_regex();
    let texts = [
        "0", "1ms", "12s", "3m", "4h", "5d", "100xyz", "-5s", "5 s", " 5s", "5s ", "1.5s", "1h30m",
        "7mm", "7sm", "ms", "", "5D", "0005d", "9223372036854775808",
    ];
    for text in texts {
        if let Ok(value) = ConfigDuration::from_str(&regex, text) {
            let digits = text.trim_end_matches(|c: char| !c.is_ascii_digit());
            let suffix = &text[digits.len()..];
            assert!(!digits.is_empty() && digits.bytes().all(|b| b.is_ascii_digit()));
            assert_eq!(digits.parse::<i64>().unwrap() * value.unit.scale() as i64, value.duration);
            assert!(
                suffix.is_empty() && value.unit == Unit::Milliseconds || suffix == value.unit.suffix()
            );
        }
    }
    assert!(ConfigDuration::from_str(&regex, "0").is_ok());
    assert!(ConfigDuration::from_str(&regex, "0005d").is_ok());
    assert!(ConfigDuration::from_str(&regex, "1h30m").is_err());
}

#[test]
fn duration_captured_unit_outside_the_registry_is_unrecognized() {
    let error = ConfigDuration::from_captures("100xyz", pieces(Some("100"), Some("xyz"))).unwrap_err();
    assert_eq!(error.kind, ParseErrorKind::UnrecognizedUnit);
    assert_eq!(error.text, "xyz");
    let doubled = ConfigDuration::from_captures("100mm", pieces(Some("100"), Some("mm"))).unwrap_err();
    assert_eq!(doubled.kind, ParseErrorKind::UnrecognizedUnit);
    assert_eq!(doubled.text, "mm");
}

#[test]
fn duration_from_captures_follows_the_pieces() {
    let back = ConfigDuration::from_captures("10d", pieces(Some("10"), Some("d"))).unwrap();
    assert!(alike(back, ConfigDuration { duration: 10 * DAY, unit: Unit::Days }));
    let bare = ConfigDuration::from_captures("64", pieces(Some("64"), None)).unwrap();
    assert!(alike(bare, ConfigDuration { duration: 64, unit: Unit::Milliseconds }));
    let nothing = ConfigDuration::from_captures("abc", None).unwrap_err();
    assert_eq!(nothing.kind, ParseErrorKind::MalformedInput);
    assert_eq!(nothing.text, "abc");
    let no_magnitude = ConfigDuration::from_captures("ms", pieces(None, Some("ms"))).unwrap_err();
    assert_eq!(no_magnitude.kind, ParseErrorKind::MalformedInput);
    assert_eq!(no_magnitude.text, "ms");
}

#[test]
fn duration_faulty_magnitude_is_reported_before_a_faulty_unit() {
    let signed = ConfigDuration::from_captures("-5xyz", pieces(Some("-5"), Some("xyz"))).unwrap_err();
    assert_eq!(signed.kind, ParseErrorKind::InvalidMagnitude(MagnitudeFault::NotADigit));
    assert_eq!(signed.text, "-5");
    let empty = ConfigDuration::from_captures("s", pieces(Some(""), Some("s"))).unwrap_err();
    assert_eq!(empty.kind, ParseErrorKind::InvalidMagnitude(MagnitudeFault::Empty));
    let huge = ConfigDuration::from_captures(
        "9223372036854775808xyz",
        pieces(Some("9223372036854775808"), Some("xyz")),
    )
    .unwrap_err();
    assert_eq!(huge.kind, ParseErrorKind::InvalidMagnitude(MagnitudeFault::TooLarge));
    assert_eq!(huge.text, "9223372036854775808");
    let unit_first = ConfigDuration::from_captures(
        "9223372036854775807xyz",
        pieces(Some("9223372036854775807"), Some("xyz")),
    )
    .unwrap_err();
    assert_eq!(unit_first.kind, ParseErrorKind::UnrecognizedUnit);
    assert_eq!(unit_first.text, "xyz");
}

#[test]
fn duration_from_captures_holds_the_pieces_against_the_input() {
    let before = ConfigDuration::from_captures("-5s", pieces(Some("5"), Some("s"))).unwrap_err();
    assert_eq!(before.kind, ParseErrorKind::MalformedInput);
    assert_eq!(before.text, "-5s");
    let after = ConfigDuration::from_captures("100xyz", pieces(Some("100"), None)).unwrap_err();
    assert_eq!(after.kind, ParseErrorKind::UnrecognizedUnit);
    assert_eq!(after.text, "xyz");
    let longer = ConfigDuration::from_captures("7mm", pieces(Some("7"), Some("m"))).unwrap_err();
    assert_eq!(longer.kind, ParseErrorKind::UnrecognizedUnit);
    assert_eq!(longer.text, "mm");
    let shorter = ConfigDuration::from_captures("100ms", pieces(Some("100"), Some("m"))).unwrap_err();
    assert_eq!(shorter.kind, ParseErrorKind::UnrecognizedUnit);
    assert_eq!(shorter.text, "ms");
    let missed = ConfigDuration::from_captures("4h", pieces(Some("4"), None)).unwrap_err();
    assert_eq!(missed.kind, ParseErrorKind::UnrecognizedUnit);
    assert_eq!(missed.text, "h");
    let elsewhere = ConfigDuration::from_captures("a4", pieces(Some("4"), None)).unwrap_err();
    assert_eq!(elsewhere.kind, ParseErrorKind::MalformedInput);
    assert_eq!(elsewhere.text, "a4");
}

#[test]
fn duration_unit_after_the_magnitude() {
    assert_eq!(Unit::after_magnitude("", None), Ok(Unit::Milliseconds));
    assert_eq!(Unit::after_magnitude("ms", Some(String::from("ms"))), Ok(Unit::Milliseconds));
    assert_eq!(Unit::after_magnitude("d", Some(String::from("d"))), Ok(Unit::Days));
    for (rest, unit) in [("ms", None), ("ms", Some("m")), ("m", Some("ms")), ("", Some("s")), ("x", Some("x"))] {
        let error = Unit::after_magnitude(rest, unit.map(String::from)).unwrap_err();
        assert_eq!(error.kind, ParseErrorKind::UnrecognizedUnit);
        assert_eq!(error.text, rest);
    }
}

#[test]
fn duration_order_goes_by_the_canonical_value() {
    let second = ConfigDuration { duration: 1000, unit: Unit::Seconds };
    let thousand = ConfigDuration { duration: 1000, unit: Unit::Milliseconds };
    assert!(second == thousand);
    assert_eq!(second.cmp(&thousand), Ordering::Equal);
    assert_eq!(second.partial_cmp(&thousand), Some(Ordering::Equal));
    let minute = ConfigDuration { duration: MINUTE, unit: Unit::Minutes };
    assert!(second < minute);
    assert!(minute > thousand);
    assert_eq!(second.cmp(&minute), Ordering::Less);
    assert_eq!(minute.cmp(&second), Ordering::Greater);
    assert!(second != minute);
    let past = ConfigDuration { duration: -1, unit: Unit::Days };
    assert!(past < ConfigDuration { duration: 0, unit: Unit::Milliseconds });
    assert_eq!(
        ConfigDuration { duration: i64::MIN, unit: Unit::Hours }
            .cmp(&ConfigDuration { duration: i64::MAX, unit: Unit::Hours }),
        Ordering::Less
    );
}

#[test]
fn duration_from_milliseconds_and_back() {
    let value = ConfigDuration::from(90_000);
    assert!(alike(value, ConfigDuration { duration: 90_000, unit: Unit::Milliseconds }));
    assert_eq!(value.to_string(), "90000ms");
    assert_eq!(value.into_inner(), 90_000);
    assert_eq!(ConfigDuration { duration: -7, unit: Unit::Days }.into_inner(), -7);
}

#[test]
fn duration_magnitudes_are_those_of_chrono() {
    let ticks = [
        0i64, 1, 999, 1000, 1001, 59_999, 60_000, 3_599_999, 3_600_000, 86_399_999, 86_400_000,
        123_456_789_012, i64::MAX, -1, -999, -1000, -1001, -60_000, -86_400_001, -i64::MAX,
    ];
    for t in ticks {
        let d = chrono::Duration::milliseconds(t);
        let expected = [
            (Unit::Milliseconds, d.num_milliseconds()),
            (Unit::Seconds, d.num_seconds()),
            (Unit::Minutes, d.num_minutes()),
            (Unit::Hours, d.num_hours()),
            (Unit::Days, d.num_days()),
        ];
        for (unit, magnitude) in expected {
            let text = ConfigDuration { duration: t, unit }.to_string();
            assert_eq!(text, format!("{}{}", magnitude, unit.suffix()));
        }
    }
}

#[test]
fn duration_canonical_values_are_those_of_chrono() {
    let regex = duration_regex();
    for n in [0i64, 1, 10, 100, 9999, 106_751_991_167] {
        let expected = [
            (Unit::Milliseconds, chrono::Duration::milliseconds(n)),
            (Unit::Seconds, chrono::Duration::seconds(n)),
            (Unit::Minutes, chrono::Duration::minutes(n)),
            (Unit::Hours, chrono::Duration::hours(n)),
            (Unit::Days, chrono::Duration::days(n)),
        ];
        for (unit, d) in expected {
            let text = format!("{}{}", n, unit.suffix());
            let back = ConfigDuration::from_str(&regex, &text).unwrap();
            assert_eq!(back.duration, d.num_milliseconds());
            assert_eq!(back.unit, unit);
        }
    }
}

#[test]
fn duration_bounds_are_those_of_chrono() {
    let regex = duration_regex();
    let cases = [
        (Unit::Seconds, chrono::Duration::try_seconds(9_223_372_036_854_775).is_some(), "9223372036854775s"),
        (Unit::Seconds, chrono::Duration::try_seconds(9_223_372_036_854_776).is_some(), "9223372036854776s"),
        (Unit::Minutes, chrono::Duration::try_minutes(153_722_867_280_912).is_some(), "153722867280912m"),
        (Unit::Minutes, chrono::Duration::try_minutes(153_722_867_280_913).is_some(), "153722867280913m"),
        (Unit::Hours, chrono::Duration::try_hours(2_562_047_788_015).is_some(), "2562047788015h"),
        (Unit::Hours, chrono::Duration::try_hours(2_562_047_788_016).is_some(), "2562047788016h"),
        (Unit::Days, chrono::Duration::try_days(106_751_991_167).is_some(), "106751991167d"),
        (Unit::Days, chrono::Duration::try_days(106_751_991_168).is_some(), "106751991168d"),
    ];
    for (unit, fits, text) in cases {
        let outcome = ConfigDuration::from_str(&regex, text);
        assert_eq!(outcome.is_ok(), fits);
        if let Ok(value) = outcome {
            assert_eq!(value.unit, unit);
        }
    }
}
