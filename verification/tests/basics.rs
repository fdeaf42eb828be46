use external_pod_autoscaler::config::{drain_seconds, webhook_port};
use external_pod_autoscaler::duration::{parse_duration, since, within_limits};
use external_pod_autoscaler::labels::{before, Labels};
use external_pod_autoscaler::names::{NameMap, NameSet};
use external_pod_autoscaler::number::{float_literal, parse_unsigned, signed_text, unsigned_text};
use external_pod_autoscaler::text::{
    join, split, split_once, split_whitespace, strip_prefix, strip_suffix, trim, trim_of,
};

#[test]
fn durations_are_read() {
    let second = 1_000_000_000u128;
    assert_eq!(parse_duration("15s"), Ok(15 * second));
    assert_eq!(parse_duration("5m"), Ok(300 * second));
    assert_eq!(parse_duration("1h"), Ok(3600 * second));
    assert_eq!(parse_duration("100ms"), Ok(second / 10));
    assert_eq!(parse_duration("1h 2m 3s"), Ok(3723 * second));
    assert_eq!(
        parse_duration("soon").unwrap_err(),
        "Invalid duration 'soon': expected number at 0"
    );
    assert!(parse_duration("").is_err());
    assert!(parse_duration("15").is_err());
}

fn reason(text: &str) -> String {
    let message = parse_duration(text).unwrap_err();
    let head = format!("Invalid duration '{}': ", text);
    message.strip_prefix(&head).unwrap().to_string()
}

#[test]
fn durations_that_make_the_reader_run_over_are_refused() {
    for text in [
        "18446744073709551615s 1000ms",
        "18446744073709551615s 1000000000ns",
        "18446744073709551615s 999ms 1ms",
        "18446744073709551614s 1.5s 500ms",
        "18446744073709551615s 500ms 0.5s",
        "18446744073709551615s 400ms 0.01m",
        "18446744073709551615s 999999999ns 1.5ns",
        "18446744073709551615s999999us1000ns 5h",
    ] {
        assert!(!within_limits(text), "{}", text);
        assert_eq!(reason(text), "time is too long");
    }
}

#[test]
fn other_durations_are_refused_for_the_reader_s_reason() {
    let overflow = "number is too large or cannot be represented without a lack of precision \
                    (values below 1ns are not supported)";
    let digits = format!("{}s {}ns", "9".repeat(60), "9".repeat(60));
    for text in [
        digits.as_str(),
        "18446744073709551615s 1s",
        "18446744073709551615s 1001ms",
        "18446744073709551614s 500ms 1500ms",
        "18446744073709551615s 999999999ns 2ns",
        "18446744073709551615s 1.00000000000000000000s",
        "999999999ns 18446744073709551615ns",
        "999999999ns 18446744073709551615ns 18446744055262807541s 290448386ns",
        "18446744073709551615s 999999999ns 1.00000000000000000000ns",
    ] {
        assert!(within_limits(text), "{}", text);
        assert_eq!(reason(text), overflow, "{}", text);
    }
    assert_eq!(reason("18446744073709551615s 1000.ms"), "invalid character at 26");
    assert_eq!(reason("18446744073709551615s 1000.0.0ms"), "invalid character at 28");
    assert_eq!(reason("18446744073709551615s 1000ms.5"), "invalid character at 28");
    assert_eq!(reason("18446744073709551615s soon 1000ms"), "expected number at 22");
    assert_eq!(
        reason("18446744073709551615s 1000"),
        "time unit needed, for example 1000sec or 1000ms"
    );
    assert!(reason("12345678901s 3bananas").starts_with("unknown time unit \"bananas\""));
    assert!(within_limits("18446744073709551615s"));
}

#[test]
fn long_numbers_are_read_where_they_cannot_run_over() {
    let second: u128 = 1_000_000_000;
    assert_eq!(parse_duration("1h 100000000000ns"), Ok(3700 * second));
    assert_eq!(parse_duration("99999999999s 1m"), Ok(100_000_000_059 * second));
    assert_eq!(parse_duration("1.000000000000h"), Ok(3600 * second));
    assert_eq!(parse_duration("18446744073709551615s"), Ok(u64::MAX as u128 * second));
    assert_eq!(parse_duration(&"1s ".repeat(100)), Ok(100 * second));
    assert_eq!(
        parse_duration("12345678901s1ms"),
        Ok(12_345_678_901 * second + second / 1000)
    );
    assert_eq!(
        parse_duration(" 18446744073709551614s 1999ms "),
        Ok(u64::MAX as u128 * second + 999 * (second / 1000))
    );
}

#[test]
fn time_does_not_run_backwards() {
    assert_eq!(since(5, 3), 2);
    assert_eq!(since(3, 5), 0);
}

#[test]
fn numbers_are_written_and_read() {
    assert_eq!(unsigned_text(0), "0");
    assert_eq!(unsigned_text(1234567890), "1234567890");
    assert_eq!(signed_text(-7), "-7");
    assert_eq!(parse_unsigned("+42", 100), Some(42));
    assert_eq!(parse_unsigned("101", 100), None);
    assert_eq!(parse_unsigned("", 100), None);
    assert_eq!(parse_unsigned("-0", 100), None);
}

#[test]
fn float_literals_are_those_of_rust() {
    for text in [
        "1", "-1", "+1.5", ".5", "5.", "1e3", "1E-3", "inf", "-Infinity", "NaN", "+nan", "", ".",
        "e3", "1e", "1_0", "0x1", " 1", "infinit", "+", "1.2.3", "--1", "1e+",
    ] {
        assert_eq!(float_literal(text), text.parse::<f64>().is_ok(), "{:?}", text);
    }
}

#[test]
fn labels_are_held_in_order() {
    let mut labels = Labels::new();
    labels.insert("b".to_string(), "2".to_string());
    labels.insert("a".to_string(), "1".to_string());
    labels.insert("b".to_string(), "3".to_string());
    assert_eq!(labels.len(), 2);
    assert_eq!(labels.at(0), (&"a".to_string(), &"1".to_string()));
    assert_eq!(labels.at(1), (&"b".to_string(), &"3".to_string()));
    assert!(labels.has("a", "1"));
    assert!(!labels.has("a", "2"));
    assert!(before("app", "application"));
    assert!(!before("b", "a"));
}

#[test]
fn sets_and_maps_of_names() {
    let mut set = NameSet::new();
    assert!(set.insert("x".to_string()));
    assert!(!set.insert("x".to_string()));
    assert!(set.remove("x"));
    assert!(!set.remove("x"));
    let mut map: NameMap<u64> = NameMap::new();
    map.insert("a".to_string(), 1);
    map.insert("b".to_string(), 2);
    map.insert("a".to_string(), 3);
    assert_eq!(map.get("a"), Some(&3));
    set.insert("b".to_string());
    map.retain(&set);
    assert_eq!(map.len(), 1);
    assert_eq!(map.remove("b"), Some(2));
    assert_eq!(map.remove("b"), None);
}

#[test]
fn text_is_cut_as_the_standard_library_does() {
    for text in ["", "a", "a,b", ",", "a,,b,", " a , b "] {
        let ours: Vec<String> = split(text, ',');
        let theirs: Vec<&str> = text.split(',').collect();
        assert_eq!(ours, theirs);
        assert_eq!(trim(text), text.trim());
        assert_eq!(trim_of(text, ','), text.trim_matches(','));
        assert_eq!(split_once(text, ','), text.split_once(','));
        let words: Vec<&str> = text.split_whitespace().collect();
        assert_eq!(split_whitespace(text), words);
        assert_eq!(join(&ours, ","), text);
        assert_eq!(strip_prefix(text, "a"), text.strip_prefix("a"));
        assert_eq!(strip_suffix(text, "b"), text.strip_suffix("b"));
    }
    assert_eq!(trim("\u{a0}x\u{3000}"), "x");
}

#[test]
fn settings_have_defaults() {
    assert_eq!(webhook_port(None), 8443);
    assert_eq!(webhook_port(Some("9443")), 9443);
    assert_eq!(webhook_port(Some("70000")), 8443);
    assert_eq!(drain_seconds(None), Ok(120));
    assert_eq!(drain_seconds(Some("0")), Ok(0));
    assert_eq!(
        drain_seconds(Some("-5")),
        Err("DRAIN_DURATION must be a non-negative integer".to_string())
    );
}
