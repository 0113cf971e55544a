use opentelemetry_prometheus_text_exporter::config::ExporterConfig;
use opentelemetry_prometheus_text_exporter::escape::escape_help_text;
use opentelemetry_prometheus_text_exporter::serialize::{
    write_help_comment, write_type_comment, write_unit_comment, PrometheusSerializer,
};

#[test]
fn test_escape_help_text() {
    let cases = vec![
        ("Simple description", "Simple description"),
        ("Description with\nnewline", "Description with\\nnewline"),
        ("Description with\ttab", "Description with\\ttab"),
        (
            "Description with\rcarriage return",
            "Description with\\rcarriage return",
        ),
        (
            "Description with\\backslash",
            "Description with\\\\backslash",
        ),
        (
            "Complex\nwith\ttabs\rand\\backslashes",
            "Complex\\nwith\\ttabs\\rand\\\\backslashes",
        ),
    ];

    for (input, expected) in cases {
        assert_eq!(escape_help_text(input), expected);
    }
}

#[test]
fn test_write_help_comment_escapes_description() {
    let mut output = String::new();
    let description = "This is a description\nwith a newline";

    write_help_comment(&mut output, "test_metric", description);

    assert_eq!(
        output,
        "# HELP test_metric This is a description\\nwith a newline\n"
    );
}

#[test]
fn test_scope_labels_configuration() {
    // Test with scope labels enabled (default)
    let serializer_with_scope = PrometheusSerializer::new();
    assert!(serializer_with_scope.include_scope_labels);

    // Test with scope labels disabled
    let serializer_without_scope = PrometheusSerializer::without_scope_labels();
    assert!(!serializer_without_scope.include_scope_labels);
}

#[test]
fn serializer_follows_the_configuration() {
    let all = PrometheusSerializer::with_config(ExporterConfig::default());
    assert!(all.include_scope_labels && all.include_units);
    assert!(all.include_counter_suffixes && all.include_target_info);
    let default = PrometheusSerializer::default();
    assert!(default.include_scope_labels && default.include_units);
    assert!(default.include_counter_suffixes && default.include_target_info);
    let without_scope = PrometheusSerializer::without_scope_labels();
    assert!(without_scope.include_units);
    assert!(without_scope.include_counter_suffixes && without_scope.include_target_info);

    let config = ExporterConfig {
        disable_target_info: true,
        without_units: false,
        without_counter_suffixes: true,
        disable_scope_info: false,
    };
    let some = PrometheusSerializer::with_config(config);
    assert!(!some.include_target_info);
    assert!(some.include_units);
    assert!(!some.include_counter_suffixes);
    assert!(some.include_scope_labels);
}

#[test]
fn help_comment_is_left_out_without_description() {
    let mut output = String::from("x");
    write_help_comment(&mut output, "test_metric", "");
    assert_eq!(output, "x");
}

#[test]
fn escaping_leaves_quotes_and_other_characters() {
    assert_eq!(escape_help_text(""), "");
    assert_eq!(escape_help_text("\"quoted\" 'text' é"), "\"quoted\" 'text' é");
    assert_eq!(escape_help_text("\\n"), "\\\\n");
    assert_eq!(escape_help_text("\n\n"), "\\n\\n");
}

#[test]
fn type_and_unit_comments() {
    let mut output = String::new();
    write_type_comment(&mut output, "requests_total", "counter");
    write_unit_comment(&mut output, "duration_seconds", "seconds");
    write_unit_comment(&mut output, "requests_total", "");
    assert_eq!(
        output,
        "# TYPE requests_total counter\n# UNIT duration_seconds seconds\n"
    );
}
