use opentelemetry_prometheus_text_exporter::serialize::PrometheusSerializer;
use opentelemetry_prometheus_text_exporter::unit::{
    add_unit_suffix, convert_trimmed, convert_unit, strip_brackets, trim,
};
use std::borrow::Cow;

#[test]
fn test_convert_unit_no_allocation_when_unchanged() {
    // Units that don't need conversion should return Cow::Borrowed
    let cases = vec!["", "custom_unit", "other_unit"];

    for case in cases {
        let result = convert_unit(case);
        assert_eq!(result, Cow::Borrowed(case));
    }
}

#[test]
fn test_convert_unit_no_allocation_when_converted() {
    // Units that need conversion should return appropriate result
    let cases = vec![
        ("1", "ratio"),
        ("ms", "milliseconds"),
        ("s", "seconds"),
        ("m", "meters"),
        ("kg", "kilograms"),
        ("g", "grams"),
        ("b", "bytes"),
        ("bytes", "bytes"),
        ("%", "percent"),
        ("count{packets}", "count"),
    ];

    for (input, expected) in cases {
        let result = convert_unit(input);
        match result {
            Cow::Borrowed(s) => assert_eq!(s, expected),
            Cow::Owned(_) => panic!("Expected borrowed for unchanged unit: {expected}"),
        }
    }
}

#[test]
fn test_convert_unit_allocation_when_converted() {
    // Units that need conversion should return appropriate result
    let cases = vec![
        ("something{packets}else", "somethingelse"),
        ("requests/second", "requests_per_second"),
    ];

    for (input, expected) in cases {
        let result = convert_unit(input);
        match result {
            Cow::Owned(s) => assert_eq!(s, expected),
            Cow::Borrowed(_) => panic!("Expected owned for converted unit: {input}"),
        }
    }
}

#[test]
fn convert_unit_examples() {
    assert_eq!(convert_unit("s"), "seconds");
    assert_eq!(convert_unit("1"), "ratio");
    assert_eq!(convert_unit("requests/second"), "requests_per_second");
    assert_eq!(convert_unit("count{packets}"), "count");
    assert_eq!(convert_unit("unrecognized"), "unrecognized");
    assert_eq!(convert_unit("By"), "bytes");
    assert_eq!(convert_unit("{request}"), "");
    assert_eq!(convert_unit("a/b/c"), "a_per_b_per_c");
    assert_eq!(convert_unit("/"), "_per_");
}

#[test]
fn convert_unit_trims_white_space() {
    assert_eq!(convert_unit("  s  "), "seconds");
    assert_eq!(convert_unit("\tms\n"), "milliseconds");
    assert_eq!(convert_unit("   "), "");
    assert_eq!(convert_unit("\u{a0}kg\u{2003}"), "kilograms");
    assert_eq!(convert_unit(" a b "), "a b");
    assert_eq!(trim(" a b "), "a b");
    assert_eq!(trim(""), "");
    assert_eq!(trim("x"), "x");
    // The unit is not trimmed again once the brackets are gone.
    assert_eq!(convert_unit("s {x}"), "s ");
    assert_eq!(convert_trimmed(" s"), " s");
}

#[test]
fn brackets_are_stripped_once() {
    assert_eq!(strip_brackets("a{b}c"), "ac");
    assert_eq!(strip_brackets("{b}c"), "c");
    assert_eq!(strip_brackets("a{b}"), "a");
    assert_eq!(strip_brackets("a{b"), "a{b");
    assert_eq!(strip_brackets("a}b{c"), "a}b{c");
    assert_eq!(strip_brackets("a}b{c}d"), "a}bd");
    assert_eq!(strip_brackets("a{b}c{d}e"), "ac{d}e");
    assert_eq!(strip_brackets("a{{b}c}"), "ac}");
    assert_eq!(strip_brackets("{}"), "");
    assert!(matches!(strip_brackets("a{b}c"), Cow::Owned(_)));
    assert!(matches!(strip_brackets("a{b}"), Cow::Borrowed(_)));
}

#[test]
fn conversion_after_brackets() {
    assert_eq!(convert_unit("{x}1"), "ratio");
    assert_eq!(convert_unit("m{x}s"), "milliseconds");
    assert!(matches!(convert_unit("m{x}s"), Cow::Borrowed(_)));
    assert_eq!(convert_unit("a{x}/b"), "a_per_b");
    assert_eq!(convert_unit("1/s"), "1_per_s");
}

#[test]
fn unit_suffix_is_added_once() {
    assert_eq!(add_unit_suffix("request_duration", "seconds"), "request_duration_seconds");
    assert_eq!(add_unit_suffix("request_duration_seconds", "seconds"), "request_duration_seconds");
    assert_eq!(add_unit_suffix("request_duration", ""), "request_duration");
    assert_eq!(add_unit_suffix("", "seconds"), "_seconds");
    assert_eq!(add_unit_suffix("seconds", "seconds"), "seconds");
    assert_eq!(add_unit_suffix("econds", "seconds"), "econds_seconds");
    assert!(matches!(add_unit_suffix("a_seconds", "seconds"), Cow::Borrowed(_)));
    assert!(matches!(add_unit_suffix("a", "seconds"), Cow::Owned(_)));
}

#[test]
fn unit_comes_before_total() {
    let serializer = PrometheusSerializer::new();
    assert_eq!(
        serializer.metric_name("request_duration", "seconds", true),
        "request_duration_seconds_total"
    );
    assert_eq!(serializer.metric_name("request_duration", "seconds", false), "request_duration_seconds");
    assert_eq!(serializer.metric_name("requests_total", "", true), "requests_total");
    assert_eq!(serializer.metric_name("requests_total", "seconds", true), "requests_total_seconds_total");
    assert_eq!(serializer.metric_name("requests", "total", true), "requests_total");
    assert_eq!(serializer.metric_name("", "", true), "_total");
}

#[test]
fn name_parts_follow_the_options() {
    let mut serializer = PrometheusSerializer::new();
    serializer.include_units = false;
    assert_eq!(serializer.metric_name("request_duration", "seconds", true), "request_duration_total");
    serializer.include_counter_suffixes = false;
    assert_eq!(serializer.metric_name("request_duration", "seconds", true), "request_duration");
    serializer.include_units = true;
    assert_eq!(serializer.metric_name("request_duration", "seconds", true), "request_duration_seconds");
}

#[test]
fn white_space_is_what_the_standard_library_says() {
    let listed = |c: char| {
        matches!(
            c,
            '\u{9}'..='\u{d}'
                | '\u{20}'
                | '\u{85}'
                | '\u{a0}'
                | '\u{1680}'
                | '\u{2000}'..='\u{200a}'
                | '\u{2028}'
                | '\u{2029}'
                | '\u{202f}'
                | '\u{205f}'
                | '\u{3000}'
        )
    };
    let mut white = 0;
    for c in '\u{0}'..=char::MAX {
        assert_eq!(c.is_whitespace(), listed(c), "{:x}", u32::from(c));
        let around = format!("{c}s{c}");
        if listed(c) {
            white += 1;
            assert_eq!(trim(&around), "s", "{:x}", u32::from(c));
        } else {
            assert_eq!(trim(&around), around, "{:x}", u32::from(c));
        }
    }
    assert_eq!(white, 25);
}

#[test]
fn a_unit_between_brackets_comes_to_nothing() {
    for unit in ["{request}", "{}", "{a{b}", " {packets} ", "{1}", "{ms}", "{a/b}"] {
        assert_eq!(convert_unit(unit), "", "{unit}");
    }
}
