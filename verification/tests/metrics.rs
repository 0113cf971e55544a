use opentelemetry_prometheus_text_exporter::model::{
    Attribute, DataPoint, HistogramPoint, Metric, MetricData, Number, Scope, ScopeGroup, Snapshot,
    Temporality,
};
use opentelemetry_prometheus_text_exporter::labels::LabelWriter;
use opentelemetry_prometheus_text_exporter::serialize::{
    get_prometheus_type_and_is_monotonic, named_scope_label_list, prefix_scope_labels,
    PrometheusSerializer,
};

fn tag(key: &str, value: &str) -> Attribute {
    Attribute { key: key.to_string(), value: value.to_string() }
}

fn plain_scope(name: &str) -> Scope {
    Scope { name: name.to_string(), version: None, schema_url: None, attributes: Vec::new() }
}

fn whole(value: u64) -> DataPoint {
    DataPoint { attributes: Vec::new(), value: Number::Unsigned(value) }
}

fn sum(temporality: Temporality, monotonic: bool) -> MetricData {
    MetricData::Sum { points: vec![whole(1)], temporality, monotonic }
}

fn histogram(bounds: Vec<Number>, bucket_counts: Vec<u64>, count: u64) -> HistogramPoint {
    HistogramPoint { attributes: Vec::new(), bounds, bucket_counts, count, sum: Number::Unsigned(7) }
}

fn bare() -> PrometheusSerializer {
    PrometheusSerializer {
        include_scope_labels: false,
        include_units: true,
        include_counter_suffixes: true,
        include_target_info: true,
    }
}

fn scope_label_text(serializer: &PrometheusSerializer, scope: &Scope) -> String {
    let mut out = String::new();
    let mut writer = LabelWriter::new(&mut out);
    serializer.write_scope_labels(scope, &mut writer);
    writer.finish();
    out
}

#[test]
fn kinds_of_metrics() {
    assert_eq!(
        get_prometheus_type_and_is_monotonic(&MetricData::Gauge(Vec::new())),
        Some(("gauge", false))
    );
    assert_eq!(
        get_prometheus_type_and_is_monotonic(&sum(Temporality::Cumulative, true)),
        Some(("counter", true))
    );
    assert_eq!(
        get_prometheus_type_and_is_monotonic(&sum(Temporality::Cumulative, false)),
        Some(("gauge", false))
    );
    assert_eq!(
        get_prometheus_type_and_is_monotonic(&sum(Temporality::Delta, true)),
        Some(("gauge", false))
    );
    assert_eq!(
        get_prometheus_type_and_is_monotonic(&sum(Temporality::LowMemory, true)),
        Some(("gauge", false))
    );
    assert_eq!(
        get_prometheus_type_and_is_monotonic(&sum(Temporality::Delta, false)),
        Some(("gauge", false))
    );
    assert_eq!(
        get_prometheus_type_and_is_monotonic(&MetricData::Histogram(Vec::new())),
        Some(("histogram", false))
    );
    assert_eq!(get_prometheus_type_and_is_monotonic(&MetricData::ExponentialHistogram), None);
}

#[test]
fn exponential_histograms_are_passed_over() {
    let metric = Metric {
        name: "latency".to_string(),
        description: "How long it took".to_string(),
        unit: "ms".to_string(),
        data: MetricData::ExponentialHistogram,
    };
    let mut out = String::new();
    PrometheusSerializer::new().serialize_metric(&metric, &plain_scope("test"), &mut out);
    assert_eq!(out, "");

    let snapshot = Snapshot {
        resource: Vec::new(),
        scopes: vec![ScopeGroup {
            scope: plain_scope("test"),
            metrics: vec![
                metric,
                Metric {
                    name: "up".to_string(),
                    description: String::new(),
                    unit: String::new(),
                    data: MetricData::Gauge(vec![whole(1)]),
                },
            ],
        }],
    };
    let mut out = String::new();
    PrometheusSerializer::new().serialize(&snapshot, &mut out);
    assert_eq!(out, "# TYPE up gauge\nup{otel_scope_name=\"test\"} 1\n\n");
}

#[test]
fn bucket_counts_add_up() {
    let point = histogram(
        vec![Number::Unsigned(0), Number::Unsigned(10), Number::Unsigned(25)],
        vec![1, 2, 0, 4],
        7,
    );
    let mut out = String::new();
    bare().serialize_histogram("h", &vec![point], &plain_scope("test"), &mut out);
    assert_eq!(
        out,
        [
            "h_sum 7",
            "h_count 7",
            "h_bucket{le=\"0\"} 1",
            "h_bucket{le=\"10\"} 3",
            "h_bucket{le=\"25\"} 3",
            "h_bucket{le=\"+Inf\"} 7",
            "",
        ]
        .join("\n")
    );
}

#[test]
fn bucket_counts_never_fall() {
    let counts = vec![5u64, 0, 3, 0, 0, 9, 1];
    let bounds = (0..6).map(|bound| Number::Unsigned(bound)).collect();
    let point = histogram(bounds, counts, 18);
    let mut out = String::new();
    bare().write_buckets("h", &point, &plain_scope("test"), &mut out);
    let values: Vec<u64> =
        out.lines().map(|line| line.rsplit(' ').next().unwrap().parse().unwrap()).collect();
    assert_eq!(values, vec![5, 5, 8, 8, 8, 17]);
    assert!(values.windows(2).all(|pair| pair[0] <= pair[1]));

    let mut last = String::new();
    bare().write_total_bucket("h", &point, &plain_scope("test"), &mut last);
    assert_eq!(last, "h_bucket{le=\"+Inf\"} 18\n");
}

#[test]
fn bucket_counts_beyond_the_machine_word() {
    let point = histogram(
        vec![Number::Unsigned(1), Number::Unsigned(2)],
        vec![u64::MAX, u64::MAX, 1],
        u64::MAX,
    );
    let mut out = String::new();
    bare().write_buckets("h", &point, &plain_scope("test"), &mut out);
    assert_eq!(
        out,
        "h_bucket{le=\"1\"} 18446744073709551615\nh_bucket{le=\"2\"} 36893488147419103230\n"
    );
}

#[test]
fn buckets_need_a_bound_and_a_count() {
    let more_bounds = histogram(
        vec![Number::Unsigned(1), Number::Unsigned(2), Number::Unsigned(3)],
        vec![4],
        4,
    );
    let mut out = String::new();
    bare().write_histogram_point("h", &more_bounds, &plain_scope("test"), &mut out);
    assert_eq!(out, "h_sum 7\nh_count 4\nh_bucket{le=\"1\"} 4\nh_bucket{le=\"+Inf\"} 4\n");

    let none = histogram(Vec::new(), Vec::new(), 0);
    let mut out = String::new();
    bare().write_histogram_point("h", &none, &plain_scope("test"), &mut out);
    assert_eq!(out, "h_sum 7\nh_count 0\nh_bucket{le=\"+Inf\"} 0\n");
}

#[test]
fn bounds_are_written_as_numbers_are() {
    let point = histogram(
        vec![
            Number::Signed(-5),
            Number::Decimal("2.5".to_string()),
            Number::PositiveInfinity,
        ],
        vec![1, 1, 1, 0],
        3,
    );
    let mut out = String::new();
    bare().write_buckets("h", &point, &plain_scope("test"), &mut out);
    assert_eq!(
        out,
        "h_bucket{le=\"-5\"} 1\nh_bucket{le=\"2.5\"} 2\nh_bucket{le=\"+Inf\"} 3\n"
    );
}

#[test]
fn bucket_labels_stand_between_attributes_and_scope() {
    let mut out = String::new();
    PrometheusSerializer::new().write_bucket_labels(
        &vec![tag("method", "GET")],
        &plain_scope("test"),
        "10",
        &mut out,
    );
    assert_eq!(out, "{method=\"GET\",le=\"10\",otel_scope_name=\"test\"}");

    let mut out = String::new();
    bare().write_bucket_labels(&Vec::new(), &plain_scope("test"), "+Inf", &mut out);
    assert_eq!(out, "{le=\"+Inf\"}");
}

#[test]
fn metric_labels_without_any_label() {
    let mut out = String::from("up");
    bare().write_metric_labels(&Vec::new(), &plain_scope("test"), &mut out);
    assert_eq!(out, "up");
    let mut out = String::from("up");
    PrometheusSerializer::new().write_metric_labels(&Vec::new(), &plain_scope(""), &mut out);
    assert_eq!(out, "up");
}

#[test]
fn scope_labels_in_full() {
    let scope = Scope {
        name: "meter".to_string(),
        version: Some("1.2".to_string()),
        schema_url: Some("https://example.test/schema".to_string()),
        attributes: vec![
            tag("name", "hidden"),
            tag("team.id", "blue"),
            tag("version", "hidden"),
            tag("schema_url", "hidden"),
            tag("team-id", "red"),
            tag("1st", "yes"),
        ],
    };
    assert_eq!(
        scope_label_text(&PrometheusSerializer::new(), &scope),
        "{otel_scope_name=\"meter;hidden\",otel_scope_version=\"1.2;hidden\",\
         otel_scope_schema_url=\"https://example.test/schema;hidden\",\
         otel_scope__st=\"yes\",otel_scope_team_id=\"red;blue\"}"
    );
    assert_eq!(scope_label_text(&PrometheusSerializer::without_scope_labels(), &scope), "");
}

#[test]
fn empty_scope_texts_have_no_label() {
    let scope = Scope {
        name: String::new(),
        version: Some(String::new()),
        schema_url: None,
        attributes: Vec::new(),
    };
    assert_eq!(scope_label_text(&PrometheusSerializer::new(), &scope), "");
    let scope = Scope {
        name: String::new(),
        version: None,
        schema_url: Some("s".to_string()),
        attributes: vec![tag("a", "")],
    };
    assert_eq!(
        scope_label_text(&PrometheusSerializer::new(), &scope),
        "{otel_scope_schema_url=\"s\",otel_scope_a=\"\"}"
    );
}

#[test]
fn every_scope_attribute_becomes_a_label() {
    let scope = Scope {
        name: String::new(),
        version: None,
        schema_url: None,
        attributes: vec![tag("version", "v")],
    };
    assert_eq!(
        scope_label_text(&PrometheusSerializer::new(), &scope),
        "{otel_scope_version=\"v\"}"
    );

    let scope = Scope {
        name: "meter".to_string(),
        version: None,
        schema_url: Some(String::new()),
        attributes: vec![tag("schema_url", "s"), tag("name2", "n"), tag("Version", "V")],
    };
    assert_eq!(
        scope_label_text(&PrometheusSerializer::new(), &scope),
        "{otel_scope_name=\"meter\",otel_scope_Version=\"V\",otel_scope_name2=\"n\",\
         otel_scope_schema_url=\"s\"}"
    );

    let mut out = String::from("up");
    PrometheusSerializer::new().write_metric_labels(
        &vec![tag("method", "GET")],
        &Scope {
            name: String::new(),
            version: None,
            schema_url: None,
            attributes: vec![tag("schema_url", "v")],
        },
        &mut out,
    );
    assert_eq!(out, "up{method=\"GET\",otel_scope_schema_url=\"v\"}");
}

#[test]
fn a_scope_attribute_is_joined_to_the_label_it_comes_to() {
    let scope = Scope {
        name: "meter".to_string(),
        version: Some("1.2".to_string()),
        schema_url: None,
        attributes: vec![tag("version", "beta"), tag("name", "other"), tag("na.me", "x")],
    };
    let labels = PrometheusSerializer::new().scope_label_list(&scope);
    let found: Vec<(&str, &str)> =
        labels.iter().map(|label| (label.key.as_str(), label.value.as_str())).collect();
    assert_eq!(
        found,
        vec![
            ("otel_scope_name", "meter;other"),
            ("otel_scope_version", "1.2;beta"),
            ("otel_scope_na_me", "x"),
        ]
    );
    assert!(PrometheusSerializer::without_scope_labels().scope_label_list(&scope).is_empty());
}

#[test]
fn named_scope_labels_and_prefix() {
    let scope = Scope {
        name: "meter".to_string(),
        version: Some(String::new()),
        schema_url: Some("url".to_string()),
        attributes: vec![tag("a", "b")],
    };
    let named = named_scope_label_list(&scope);
    let found: Vec<(&str, &str)> =
        named.iter().map(|label| (label.key.as_str(), label.value.as_str())).collect();
    assert_eq!(found, vec![("otel_scope_name", "meter"), ("otel_scope_schema_url", "url")]);

    let prefixed = prefix_scope_labels(&vec![tag("name2", "2"), tag("Version", "4")]);
    let keys: Vec<&str> = prefixed.iter().map(|found| found.key.as_str()).collect();
    assert_eq!(keys, vec!["otel_scope_name2", "otel_scope_Version"]);
    assert_eq!(prefixed[1].value, "4");
}

#[test]
fn resource_block() {
    let serializer = PrometheusSerializer::new();
    let mut out = String::new();
    serializer.serialize_resource(&Vec::new(), &mut out);
    assert_eq!(out, "");

    serializer.serialize_resource(
        &vec![tag("service.name", "shop"), tag("host", "a\"b"), tag("service-name", "store")],
        &mut out,
    );
    assert_eq!(
        out,
        "# TYPE target_info gauge\n# HELP target_info Target metadata\n\
         target_info{host=\"a\\\"b\",service_name=\"store;shop\"} 1\n"
    );

    let mut off = serializer;
    off.include_target_info = false;
    let mut out = String::new();
    off.serialize_resource(&vec![tag("service.name", "shop")], &mut out);
    assert_eq!(out, "");
}

#[test]
fn header_lines_of_a_metric() {
    let metric = Metric {
        name: "request.duration".to_string(),
        description: "Time\tspent".to_string(),
        unit: " ms ".to_string(),
        data: sum(Temporality::Cumulative, true),
    };
    let mut out = String::new();
    bare().serialize_metric(&metric, &plain_scope("test"), &mut out);
    assert_eq!(
        out,
        "# TYPE request_duration_milliseconds_total counter\n\
         # HELP request_duration_milliseconds_total Time\\tspent\n\
         # UNIT request_duration_milliseconds_total milliseconds\n\
         request_duration_milliseconds_total 1\n\n"
    );

    let mut plain = bare();
    plain.include_units = false;
    let mut out = String::new();
    plain.serialize_metric(&metric, &plain_scope("test"), &mut out);
    assert_eq!(
        out,
        "# TYPE request_duration_total counter\n\
         # HELP request_duration_total Time\\tspent\n\
         request_duration_total 1\n\n"
    );
}

#[test]
fn gauges_and_sums_are_written_alike() {
    let points = vec![
        DataPoint { attributes: vec![tag("b", "2"), tag("a", "1")], value: Number::Signed(-4) },
        DataPoint { attributes: Vec::new(), value: Number::NotANumber },
    ];
    let mut gauge = String::new();
    bare().serialize_gauge("g", &points, &plain_scope("test"), &mut gauge);
    assert_eq!(gauge, "g{a=\"1\",b=\"2\"} -4\ng NaN\n");
    let mut sum = String::new();
    bare().serialize_sum("g", &points, &plain_scope("test"), &mut sum);
    assert_eq!(sum, gauge);
}

#[test]
fn a_metric_without_points_has_its_header() {
    let metric = Metric {
        name: String::new(),
        description: String::new(),
        unit: String::new(),
        data: MetricData::Gauge(Vec::new()),
    };
    let group = ScopeGroup { scope: plain_scope("test"), metrics: vec![metric] };
    let mut out = String::new();
    bare().serialize_scope_metrics(&group, &mut out);
    assert_eq!(out, "# TYPE  gauge\n\n");
}
