//! The encoder.

use crate::config::ExporterConfig;
use crate::decimal::{decimal, number_text, write_decimal};
use crate::escape::escape_help_text;
use crate::format::{
    bounded_buckets, bucket_labels, bucket_line, bucket_lines, cumulative, full_name, header,
    help_comment, histogram_lines, histogram_point_lines, metric_text, metrics_text, named_label,
    named_scope_labels, optional_label, point_labels, point_line, point_lines, prometheus_type,
    resource_text, sample_line, sample_lines, scope_labels, scopes_text, snapshot_text,
    total_bucket_line, type_comment, unit_comment, with_scope_prefix,
};
use crate::labels::{
    absorb_all, emitted, label_block, labels_of, lemma_emitted_concat, lemma_emitted_one,
    merge_labels, write_attributes_as_labels, LabelWriter,
};
use crate::model::{
    optional_text, Attribute, DataPoint, Entry, HistogramPoint, Metric, MetricData, Scope,
    ScopeGroup, Snapshot, Temporality,
};
use crate::sanitize::sanitize_name;
use crate::text::{cow_text, text_ends_with};
use crate::unit::{add_unit_suffix, convert_unit};
use vstd::prelude::*;

verus! {

/// Encodes snapshots as Prometheus text, with the parts that its fields
/// switch on.
#[derive(Debug, Clone, Copy)]
pub struct PrometheusSerializer {
    /// Whether each sample gets the `otel_scope_*` labels.
    pub include_scope_labels: bool,
    /// Whether the unit is made part of metric names and `# UNIT` lines are
    /// written.
    pub include_units: bool,
    /// Whether counters get the suffix `_total`.
    pub include_counter_suffixes: bool,
    /// Whether the resource attributes are written as `target_info`.
    pub include_target_info: bool,
}

impl PrometheusSerializer {
    /// An encoder with every part switched on.
    pub fn new() -> (serializer: Self)
        ensures
            serializer == (PrometheusSerializer {
                include_scope_labels: true,
                include_units: true,
                include_counter_suffixes: true,
                include_target_info: true,
            }),
    {
        PrometheusSerializer {
            include_scope_labels: true,
            include_units: true,
            include_counter_suffixes: true,
            include_target_info: true,
        }
    }

    /// An encoder that writes no scope labels, and every other part.
    pub fn without_scope_labels() -> (serializer: Self)
        ensures
            serializer == (PrometheusSerializer {
                include_scope_labels: false,
                include_units: true,
                include_counter_suffixes: true,
                include_target_info: true,
            }),
    {
        PrometheusSerializer {
            include_scope_labels: false,
            include_units: true,
            include_counter_suffixes: true,
            include_target_info: true,
        }
    }

    /// An encoder that writes each part unless `config` switches it off.
    pub fn with_config(config: ExporterConfig) -> (serializer: Self)
        ensures
            serializer == (PrometheusSerializer {
                include_scope_labels: !config.disable_scope_info,
                include_units: !config.without_units,
                include_counter_suffixes: !config.without_counter_suffixes,
                include_target_info: !config.disable_target_info,
            }),
    {
        PrometheusSerializer {
            include_scope_labels: !config.disable_scope_info,
            include_units: !config.without_units,
            include_counter_suffixes: !config.without_counter_suffixes,
            include_target_info: !config.disable_target_info,
        }
    }
}

impl Default for PrometheusSerializer {
    /// An encoder with every part switched on.
    fn default() -> (serializer: Self)
        ensures
            serializer == (PrometheusSerializer {
                include_scope_labels: true,
                include_units: true,
                include_counter_suffixes: true,
                include_target_info: true,
            }),
    {
        PrometheusSerializer::new()
    }
}

/// Writes the line that tells of what kind a metric is.
pub fn write_type_comment(writer: &mut String, name: &str, metric_type: &str)
    ensures
        final(writer)@ == old(writer)@ + type_comment(name@, metric_type@),
{
    writer.append("# TYPE ");
    writer.append(name);
    writer.append(" ");
    writer.append(metric_type);
    writer.append("\n");
    proof {
        assert(writer@ =~= old(writer)@ + type_comment(name@, metric_type@));
    }
}

/// Writes the line that tells what a metric means, unless the description is
/// empty.
pub fn write_help_comment(writer: &mut String, name: &str, description: &str)
    ensures
        final(writer)@ == old(writer)@ + help_comment(name@, description@),
{
    if !description.is_empty() {
        let escaped_description = escape_help_text(description);
        writer.append("# HELP ");
        writer.append(name);
        writer.append(" ");
        writer.append(escaped_description.as_str());
        writer.append("\n");
    }
    proof {
        assert(writer@ =~= old(writer)@ + help_comment(name@, description@));
    }
}

/// Writes the line that tells the unit of a metric, unless the unit is empty.
pub fn write_unit_comment(writer: &mut String, name: &str, unit: &str)
    ensures
        final(writer)@ == old(writer)@ + unit_comment(name@, unit@),
{
    if !unit.is_empty() {
        writer.append("# UNIT ");
        writer.append(name);
        writer.append(" ");
        writer.append(unit);
        writer.append("\n");
    }
    proof {
        assert(writer@ =~= old(writer)@ + unit_comment(name@, unit@));
    }
}

/// The kind under which a metric is written, and whether it only ever grows;
/// `None` for a metric that is not written.
pub fn get_prometheus_type_and_is_monotonic(data: &MetricData) -> (kind: Option<
    (&'static str, bool),
>)
    ensures
        match kind {
            Some((word, monotonic)) => prometheus_type(data.deep_view()) == Some(
                (word@, monotonic),
            ),
            None => prometheus_type(data.deep_view()) is None,
        },
{
    match data {
        MetricData::Gauge(_) => Some(("gauge", false)),
        MetricData::Sum { points: _, temporality, monotonic } => {
            if *temporality == Temporality::Cumulative && *monotonic {
                Some(("counter", true))
            } else {
                Some(("gauge", false))
            }
        },
        MetricData::Histogram(_) => Some(("histogram", false)),
        MetricData::ExponentialHistogram => None,
    }
}

/// The labels with `otel_scope_` before each key.
pub fn prefix_scope_labels(labels: &Vec<Attribute>) -> (prefixed: Vec<Attribute>)
    ensures
        prefixed.deep_view() == with_scope_prefix(labels.deep_view()),
{
    let ghost all = labels.deep_view();
    let mut prefixed: Vec<Attribute> = Vec::new();
    let mut i: usize = 0;
    while i < labels.len()
        invariant
            i <= labels.len(),
            all == labels.deep_view(),
            prefixed.len() == i,
            forall|j: int|
                0 <= j < i ==> (#[trigger] prefixed@[j]).deep_view() == with_scope_prefix(all)[j],
        decreases labels.len() - i,
    {
        let mut key = String::from_str("otel_scope_");
        key.append(labels[i].key.as_str());
        prefixed.push(Attribute { key, value: labels[i].value.clone() });
        i += 1;
    }
    proof {
        assert(prefixed.deep_view() =~= with_scope_prefix(all));
    }
    prefixed
}

/// Adds the label `key` for `value`, unless the value is empty.
fn push_named(labels: &mut Vec<Attribute>, key: &str, value: &str)
    ensures
        final(labels).deep_view() == old(labels).deep_view() + named_label(key@, value@),
{
    if !value.is_empty() {
        labels.push(Attribute { key: String::from_str(key), value: String::from_str(value) });
    }
    proof {
        assert(labels.deep_view() =~= old(labels).deep_view() + named_label(key@, value@));
    }
}

/// Adds the label `key` for `value`, unless the value is missing or empty.
fn push_optional(labels: &mut Vec<Attribute>, key: &str, value: &Option<String>)
    ensures
        final(labels).deep_view() == old(labels).deep_view() + optional_label(
            key@,
            optional_text(*value),
        ),
{
    match value {
        Some(value) => push_named(labels, key, value.as_str()),
        None => {
            proof {
                assert(labels.deep_view() =~= old(labels).deep_view() + Seq::<Entry>::empty());
            }
        },
    }
}

/// The labels for the name, the version and the schema URL of a scope.
pub fn named_scope_label_list(scope: &Scope) -> (labels: Vec<Attribute>)
    ensures
        labels.deep_view() == named_scope_labels(scope.deep_view()),
{
    let mut labels: Vec<Attribute> = Vec::new();
    push_named(&mut labels, "otel_scope_name", scope.name.as_str());
    push_optional(&mut labels, "otel_scope_version", &scope.version);
    push_optional(&mut labels, "otel_scope_schema_url", &scope.schema_url);
    proof {
        assert(labels.deep_view() =~= named_scope_labels(scope.deep_view()));
    }
    labels
}

impl PrometheusSerializer {
    /// The name under which a metric is written, made of its sanitized name
    /// and its converted unit.
    pub fn metric_name(&self, name: &str, unit: &str, monotonic: bool) -> (full: String)
        ensures
            full@ == full_name(*self, name@, unit@, monotonic),
    {
        let mut full = if self.include_units {
            let with_unit = add_unit_suffix(name, unit);
            String::from_str(cow_text(&with_unit))
        } else {
            String::from_str(name)
        };
        if monotonic && self.include_counter_suffixes && !text_ends_with(full.as_str(), "_total") {
            full.append("_total");
        }
        full
    }

    /// The labels that tell of the scope; none where they are not wanted.
    pub fn scope_label_list(&self, scope: &Scope) -> (labels: Vec<Attribute>)
        ensures
            labels.deep_view() == scope_labels(*self, scope.deep_view()),
    {
        if !self.include_scope_labels {
            return Vec::new();
        }
        let mut labels = named_scope_label_list(scope);
        let own = merge_labels(&scope.attributes);
        let prefixed = prefix_scope_labels(&own);
        absorb_all(&mut labels, &prefixed);
        labels
    }

    /// Writes the labels that tell of the scope, where they are wanted.
    pub fn write_scope_labels(&self, scope: &Scope, label_writer: &mut LabelWriter)
        ensures
            final(label_writer).writer@ == old(label_writer).writer@ + emitted(
                scope_labels(*self, scope.deep_view()),
                old(label_writer).has_written,
            ),
            final(label_writer).has_written == (old(label_writer).has_written || scope_labels(
                *self,
                scope.deep_view(),
            ).len() > 0),
            *final(final(label_writer).writer) == *final(old(label_writer).writer),
    {
        let labels = self.scope_label_list(scope);
        label_writer.emit_all(&labels);
    }

    /// Writes the labels of a sample: those of its attributes, then those of
    /// the scope.
    pub fn write_metric_labels(
        &self,
        attributes: &Vec<Attribute>,
        scope: &Scope,
        writer: &mut String,
    )
        ensures
            final(writer)@ == old(writer)@ + label_block(
                point_labels(*self, attributes.deep_view(), scope.deep_view()),
            ),
    {
        let ghost own = labels_of(attributes.deep_view());
        let ghost of_scope = scope_labels(*self, scope.deep_view());
        let mut label_writer = LabelWriter::new(writer);
        write_attributes_as_labels(attributes, &mut label_writer);
        self.write_scope_labels(scope, &mut label_writer);
        proof {
            lemma_emitted_concat(own, of_scope, false);
        }
        label_writer.finish();
        proof {
            assert(writer@ =~= old(writer)@ + label_block(own + of_scope));
        }
    }

    /// Writes the labels of a bucket: those of the attributes, then `le` with
    /// the upper bound, then those of the scope.
    pub fn write_bucket_labels(
        &self,
        attributes: &Vec<Attribute>,
        scope: &Scope,
        le_value: &str,
        writer: &mut String,
    )
        ensures
            final(writer)@ == old(writer)@ + label_block(
                bucket_labels(*self, attributes.deep_view(), le_value@, scope.deep_view()),
            ),
    {
        let ghost own = labels_of(attributes.deep_view());
        let ghost le = seq![Entry { key: "le"@, value: le_value@ }];
        let ghost of_scope = scope_labels(*self, scope.deep_view());
        let mut label_writer = LabelWriter::new(writer);
        write_attributes_as_labels(attributes, &mut label_writer);
        label_writer.emit("le", le_value);
        proof {
            lemma_emitted_one(Entry { key: "le"@, value: le_value@ }, own.len() > 0);
            lemma_emitted_concat(own, le, false);
        }
        self.write_scope_labels(scope, &mut label_writer);
        proof {
            lemma_emitted_concat(own + le, of_scope, false);
        }
        label_writer.finish();
        proof {
            assert(writer@ =~= old(writer)@ + label_block(own + le + of_scope));
        }
    }

    /// Writes the sample of one value of a gauge or a sum.
    pub fn write_point(&self, name: &str, point: &DataPoint, scope: &Scope, writer: &mut String)
        ensures
            final(writer)@ == old(writer)@ + point_line(
                *self,
                name@,
                scope.deep_view(),
                point.deep_view(),
            ),
    {
        writer.append(name);
        self.write_metric_labels(&point.attributes, scope, writer);
        writer.append(" ");
        point.value.serialize(writer);
        writer.append("\n");
        proof {
            assert(writer@ =~= old(writer)@ + point_line(
                *self,
                name@,
                scope.deep_view(),
                point.deep_view(),
            ));
        }
    }

    /// Writes the samples of a gauge.
    pub fn serialize_gauge(
        &self,
        name: &str,
        gauge: &Vec<DataPoint>,
        scope: &Scope,
        writer: &mut String,
    )
        ensures
            final(writer)@ == old(writer)@ + point_lines(
                *self,
                name@,
                scope.deep_view(),
                gauge.deep_view(),
            ),
    {
        let ghost points = gauge.deep_view();
        let mut i: usize = 0;
        proof {
            assert(writer@ =~= old(writer)@ + point_lines(
                *self,
                name@,
                scope.deep_view(),
                points.take(0),
            ));
        }
        while i < gauge.len()
            invariant
                i <= gauge.len(),
                points == gauge.deep_view(),
                writer@ == old(writer)@ + point_lines(
                    *self,
                    name@,
                    scope.deep_view(),
                    points.take(i as int),
                ),
            decreases gauge.len() - i,
        {
            proof {
                assert(points.take(i + 1).drop_last() =~= points.take(i as int));
                assert(points.take(i + 1).last() == gauge@[i as int].deep_view());
            }
            self.write_point(name, &gauge[i], scope, writer);
            proof {
                assert(writer@ =~= old(writer)@ + point_lines(
                    *self,
                    name@,
                    scope.deep_view(),
                    points.take(i + 1),
                ));
            }
            i += 1;
        }
        proof {
            assert(points.take(gauge.len() as int) =~= points);
        }
    }

    /// Writes the samples of a sum, each as that of a gauge is written.
    pub fn serialize_sum(
        &self,
        name: &str,
        sum: &Vec<DataPoint>,
        scope: &Scope,
        writer: &mut String,
    )
        ensures
            final(writer)@ == old(writer)@ + point_lines(
                *self,
                name@,
                scope.deep_view(),
                sum.deep_view(),
            ),
    {
        self.serialize_gauge(name, sum, scope, writer);
    }

    /// Writes the sample of one bucket with a bound, `total` being how many
    /// values were at most that bound.
    fn write_bucket(
        &self,
        name: &str,
        point: &HistogramPoint,
        bucket: usize,
        total: u128,
        scope: &Scope,
        writer: &mut String,
    )
        requires
            bucket < point.bounds.len(),
            total == cumulative(point.bucket_counts@, bucket + 1),
        ensures
            final(writer)@ == old(writer)@ + bucket_line(
                *self,
                name@,
                scope.deep_view(),
                point.deep_view(),
                bucket as int,
            ),
    {
        let mut bound = String::new();
        point.bounds[bucket].serialize(&mut bound);
        proof {
            assert(bound@ =~= number_text(point.deep_view().bounds[bucket as int]));
        }
        writer.append(name);
        writer.append("_bucket");
        self.write_bucket_labels(&point.attributes, scope, bound.as_str(), writer);
        writer.append(" ");
        write_decimal(writer, total);
        writer.append("\n");
        proof {
            assert(writer@ =~= old(writer)@ + bucket_line(
                *self,
                name@,
                scope.deep_view(),
                point.deep_view(),
                bucket as int,
            ));
        }
    }

    /// Writes the sample that holds the sum of a histogram's values.
    pub fn write_sum_line(
        &self,
        name: &str,
        point: &HistogramPoint,
        scope: &Scope,
        writer: &mut String,
    )
        ensures
            final(writer)@ == old(writer)@ + sample_line(
                name@ + "_sum"@,
                point_labels(*self, point.deep_view().attributes, scope.deep_view()),
                number_text(point.deep_view().sum),
            ),
    {
        writer.append(name);
        writer.append("_sum");
        self.write_metric_labels(&point.attributes, scope, writer);
        writer.append(" ");
        point.sum.serialize(writer);
        writer.append("\n");
        proof {
            assert(writer@ =~= old(writer)@ + sample_line(
                name@ + "_sum"@,
                point_labels(*self, point.deep_view().attributes, scope.deep_view()),
                number_text(point.deep_view().sum),
            ));
        }
    }

    /// Writes the sample that holds the number of a histogram's values.
    pub fn write_count_line(
        &self,
        name: &str,
        point: &HistogramPoint,
        scope: &Scope,
        writer: &mut String,
    )
        ensures
            final(writer)@ == old(writer)@ + sample_line(
                name@ + "_count"@,
                point_labels(*self, point.deep_view().attributes, scope.deep_view()),
                decimal(point.count as nat),
            ),
    {
        writer.append(name);
        writer.append("_count");
        self.write_metric_labels(&point.attributes, scope, writer);
        writer.append(" ");
        write_decimal(writer, point.count as u128);
        writer.append("\n");
        proof {
            assert(writer@ =~= old(writer)@ + sample_line(
                name@ + "_count"@,
                point_labels(*self, point.deep_view().attributes, scope.deep_view()),
                decimal(point.count as nat),
            ));
        }
    }

    /// Writes the samples of the buckets that have a bound, in the order of
    /// the bounds, each with the number of values in it and in those before
    /// it.
    pub fn write_buckets(
        &self,
        name: &str,
        point: &HistogramPoint,
        scope: &Scope,
        writer: &mut String,
    )
        ensures
            final(writer)@ == old(writer)@ + bucket_lines(
                *self,
                name@,
                scope.deep_view(),
                point.deep_view(),
                bounded_buckets(point.deep_view()),
            ),
    {
        let ghost model = point.deep_view();
        let ghost of_scope = scope.deep_view();
        let buckets = if point.bounds.len() <= point.bucket_counts.len() {
            point.bounds.len()
        } else {
            point.bucket_counts.len()
        };
        let mut cumulative_count: u128 = 0;
        let mut i: usize = 0;
        proof {
            assert(writer@ =~= old(writer)@ + bucket_lines(*self, name@, of_scope, model, 0));
        }
        while i < buckets
            invariant
                i <= buckets,
                buckets == bounded_buckets(model),
                model == point.deep_view(),
                of_scope == scope.deep_view(),
                cumulative_count == cumulative(point.bucket_counts@, i as int),
                cumulative_count <= i * 0xffff_ffff_ffff_ffff,
                writer@ == old(writer)@ + bucket_lines(*self, name@, of_scope, model, i as int),
            decreases buckets - i,
        {
            proof {
                assert((i + 1) * 0xffff_ffff_ffff_ffff <= 0xffff_ffff_ffff_ffff
                    * 0xffff_ffff_ffff_ffff) by (nonlinear_arith)
                    requires
                        i + 1 <= 0xffff_ffff_ffff_ffff,
                ;
            }
            cumulative_count = cumulative_count + point.bucket_counts[i] as u128;
            self.write_bucket(name, point, i, cumulative_count, scope, writer);
            proof {
                assert(writer@ =~= old(writer)@ + bucket_lines(
                    *self,
                    name@,
                    of_scope,
                    model,
                    i + 1,
                ));
            }
            i += 1;
        }
    }

    /// Writes the sample of the bucket without a bound: its value is the
    /// number of all values.
    pub fn write_total_bucket(
        &self,
        name: &str,
        point: &HistogramPoint,
        scope: &Scope,
        writer: &mut String,
    )
        ensures
            final(writer)@ == old(writer)@ + total_bucket_line(
                *self,
                name@,
                scope.deep_view(),
                point.deep_view(),
            ),
    {
        writer.append(name);
        writer.append("_bucket");
        self.write_bucket_labels(&point.attributes, scope, "+Inf", writer);
        writer.append(" ");
        write_decimal(writer, point.count as u128);
        writer.append("\n");
        proof {
            assert(writer@ =~= old(writer)@ + total_bucket_line(
                *self,
                name@,
                scope.deep_view(),
                point.deep_view(),
            ));
        }
    }

    /// Writes the samples of one histogram: the sum, the count, the buckets
    /// with a bound, and the bucket without one.
    pub fn write_histogram_point(
        &self,
        name: &str,
        point: &HistogramPoint,
        scope: &Scope,
        writer: &mut String,
    )
        ensures
            final(writer)@ == old(writer)@ + histogram_point_lines(
                *self,
                name@,
                scope.deep_view(),
                point.deep_view(),
            ),
    {
        self.write_sum_line(name, point, scope, writer);
        self.write_count_line(name, point, scope, writer);
        self.write_buckets(name, point, scope, writer);
        self.write_total_bucket(name, point, scope, writer);
        proof {
            assert(writer@ =~= old(writer)@ + histogram_point_lines(
                *self,
                name@,
                scope.deep_view(),
                point.deep_view(),
            ));
        }
    }

    /// Writes the samples of the histograms of a metric.
    pub fn serialize_histogram(
        &self,
        name: &str,
        histogram: &Vec<HistogramPoint>,
        scope: &Scope,
        writer: &mut String,
    )
        ensures
            final(writer)@ == old(writer)@ + histogram_lines(
                *self,
                name@,
                scope.deep_view(),
                histogram.deep_view(),
            ),
    {
        let ghost points = histogram.deep_view();
        let mut i: usize = 0;
        proof {
            assert(writer@ =~= old(writer)@ + histogram_lines(
                *self,
                name@,
                scope.deep_view(),
                points.take(0),
            ));
        }
        while i < histogram.len()
            invariant
                i <= histogram.len(),
                points == histogram.deep_view(),
                writer@ == old(writer)@ + histogram_lines(
                    *self,
                    name@,
                    scope.deep_view(),
                    points.take(i as int),
                ),
            decreases histogram.len() - i,
        {
            proof {
                assert(points.take(i + 1).drop_last() =~= points.take(i as int));
                assert(points.take(i + 1).last() == histogram@[i as int].deep_view());
            }
            self.write_histogram_point(name, &histogram[i], scope, writer);
            proof {
                assert(writer@ =~= old(writer)@ + histogram_lines(
                    *self,
                    name@,
                    scope.deep_view(),
                    points.take(i + 1),
                ));
            }
            i += 1;
        }
        proof {
            assert(points.take(histogram.len() as int) =~= points);
        }
    }

    /// Writes the lines before the samples of a metric.
    pub fn write_header(
        &self,
        name: &str,
        metric_type: &str,
        description: &str,
        unit: &str,
        writer: &mut String,
    )
        ensures
            final(writer)@ == old(writer)@ + header(
                *self,
                name@,
                metric_type@,
                description@,
                unit@,
            ),
    {
        write_type_comment(writer, name, metric_type);
        write_help_comment(writer, name, description);
        if self.include_units {
            write_unit_comment(writer, name, unit);
        }
        proof {
            assert(writer@ =~= old(writer)@ + header(
                *self,
                name@,
                metric_type@,
                description@,
                unit@,
            ));
        }
    }

    /// Writes the samples of a metric under the name `name`.
    pub fn write_samples(&self, name: &str, data: &MetricData, scope: &Scope, writer: &mut String)
        ensures
            final(writer)@ == old(writer)@ + sample_lines(
                *self,
                name@,
                scope.deep_view(),
                data.deep_view(),
            ),
    {
        match data {
            MetricData::Gauge(gauge) => self.serialize_gauge(name, gauge, scope, writer),
            MetricData::Sum { points, temporality: _, monotonic: _ } => self.serialize_sum(
                name,
                points,
                scope,
                writer,
            ),
            MetricData::Histogram(histogram) => self.serialize_histogram(
                name,
                histogram,
                scope,
                writer,
            ),
            MetricData::ExponentialHistogram => {},
        }
    }

    /// Writes a metric: the header, the samples and an empty line. A metric
    /// without a kind is passed over.
    pub fn serialize_metric(&self, metric: &Metric, scope: &Scope, writer: &mut String)
        ensures
            final(writer)@ == old(writer)@ + metric_text(
                *self,
                scope.deep_view(),
                metric.deep_view(),
            ),
    {
        let (prometheus_type, is_monotonic) = match get_prometheus_type_and_is_monotonic(
            &metric.data,
        ) {
            Some(kind) => kind,
            None => {
                proof {
                    assert(writer@ =~= old(writer)@ + Seq::<char>::empty());
                }
                return ;
            },
        };
        let sanitized_name = sanitize_name(metric.name.as_str());
        let converted_unit = convert_unit(metric.unit.as_str());
        let unit = cow_text(&converted_unit);
        let final_name = self.metric_name(cow_text(&sanitized_name), unit, is_monotonic);
        let name = final_name.as_str();
        self.write_header(name, prometheus_type, metric.description.as_str(), unit, writer);
        self.write_samples(name, &metric.data, scope, writer);
        writer.append("\n");
        proof {
            assert(writer@ =~= old(writer)@ + (header(
                *self,
                name@,
                prometheus_type@,
                metric.description@,
                unit@,
            ) + sample_lines(*self, name@, scope.deep_view(), metric.deep_view().data) + "\n"@));
        }
    }

    /// Writes the metrics of a scope, in their order.
    pub fn serialize_scope_metrics(&self, scope_metrics: &ScopeGroup, writer: &mut String)
        ensures
            final(writer)@ == old(writer)@ + metrics_text(
                *self,
                scope_metrics.deep_view().scope,
                scope_metrics.deep_view().metrics,
            ),
    {
        let ghost scope = scope_metrics.scope.deep_view();
        let ghost metrics = scope_metrics.metrics.deep_view();
        let mut i: usize = 0;
        proof {
            assert(writer@ =~= old(writer)@ + metrics_text(*self, scope, metrics.take(0)));
        }
        while i < scope_metrics.metrics.len()
            invariant
                i <= scope_metrics.metrics.len(),
                scope == scope_metrics.scope.deep_view(),
                metrics == scope_metrics.metrics.deep_view(),
                writer@ == old(writer)@ + metrics_text(*self, scope, metrics.take(i as int)),
            decreases scope_metrics.metrics.len() - i,
        {
            proof {
                assert(metrics.take(i + 1).drop_last() =~= metrics.take(i as int));
                assert(metrics.take(i + 1).last() == scope_metrics.metrics@[i as int].deep_view());
            }
            self.serialize_metric(&scope_metrics.metrics[i], &scope_metrics.scope, writer);
            proof {
                assert(writer@ =~= old(writer)@ + metrics_text(*self, scope, metrics.take(i + 1)));
            }
            i += 1;
        }
        proof {
            assert(metrics.take(scope_metrics.metrics.len() as int) =~= metrics);
        }
    }

    /// Writes the resource attributes as the labels of the gauge
    /// `target_info`, where that is wanted and there is an attribute.
    pub fn serialize_resource(&self, resource: &Vec<Attribute>, writer: &mut String)
        ensures
            final(writer)@ == old(writer)@ + resource_text(*self, resource.deep_view()),
    {
        if !self.include_target_info || resource.len() == 0 {
            proof {
                assert(writer@ =~= old(writer)@ + Seq::<char>::empty());
            }
            return ;
        }
        write_type_comment(writer, "target_info", "gauge");
        write_help_comment(writer, "target_info", "Target metadata");
        writer.append("target_info");
        let mut label_writer = LabelWriter::new(writer);
        write_attributes_as_labels(resource, &mut label_writer);
        label_writer.finish();
        writer.append(" 1\n");
        proof {
            assert(writer@ =~= old(writer)@ + resource_text(*self, resource.deep_view()));
        }
    }

    /// Writes the scopes in their order, then the resource.
    pub fn serialize_resource_metrics(&self, snapshot: &Snapshot, writer: &mut String)
        ensures
            final(writer)@ == old(writer)@ + snapshot_text(*self, snapshot.deep_view()),
    {
        let ghost scopes = snapshot.scopes.deep_view();
        let mut i: usize = 0;
        proof {
            assert(writer@ =~= old(writer)@ + scopes_text(*self, scopes.take(0)));
        }
        while i < snapshot.scopes.len()
            invariant
                i <= snapshot.scopes.len(),
                scopes == snapshot.scopes.deep_view(),
                writer@ == old(writer)@ + scopes_text(*self, scopes.take(i as int)),
            decreases snapshot.scopes.len() - i,
        {
            proof {
                assert(scopes.take(i + 1).drop_last() =~= scopes.take(i as int));
                assert(scopes.take(i + 1).last() == snapshot.scopes@[i as int].deep_view());
            }
            self.serialize_scope_metrics(&snapshot.scopes[i], writer);
            proof {
                assert(writer@ =~= old(writer)@ + scopes_text(*self, scopes.take(i + 1)));
            }
            i += 1;
        }
        proof {
            assert(scopes.take(snapshot.scopes.len() as int) =~= scopes);
        }
        self.serialize_resource(&snapshot.resource, writer);
        proof {
            assert(writer@ =~= old(writer)@ + snapshot_text(*self, snapshot.deep_view()));
        }
    }

    /// Adds the text of a snapshot to `writer`.
    pub fn serialize(&self, snapshot: &Snapshot, writer: &mut String)
        ensures
            final(writer)@ == old(writer)@ + snapshot_text(*self, snapshot.deep_view()),
    {
        self.serialize_resource_metrics(snapshot, writer)
    }
}

} // verus!
