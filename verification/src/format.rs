//! The text format, stated over the models: what the encoder writes for a
//! snapshot under given options.

use crate::decimal::{decimal, number_text};
use crate::escape::escaped_help;
use crate::escape::lemma_plain_help_is_unchanged;
use crate::labels::{
    absorbed_all, has_key, key_position, label_block, labels_of, lemma_absorbed_all_apart,
    lemma_absorbed_all_keys, lemma_has_key, lemma_merged_keeps_every_key,
    lemma_merged_keys_are_distinct, lemma_single_attribute_label, merged,
};
use crate::order::{entry_order, lemma_entry_order_is_total, ordered};
use crate::unit::lemma_annotation_comes_to_nothing;
use crate::model::{
    DataPointModel, Entry, HistogramPointModel, MetricDataModel, MetricModel, ScopeGroupModel,
    ScopeModel, SnapshotModel, Temporality,
};
use crate::sanitize::sanitized;
use crate::serialize::PrometheusSerializer;
use crate::text::ends_with;
use crate::unit::{converted_unit, with_unit_suffix};
use vstd::prelude::*;

verus! {

/// The kind under which a metric is written, and whether it only ever grows.
///
/// A gauge is a gauge. A sum is a counter where it counts from the start and
/// only grows, else a gauge. A histogram with fixed buckets is a histogram.
/// One with exponential buckets has no kind: it is not written.
pub open spec fn prometheus_type(data: MetricDataModel) -> Option<(Seq<char>, bool)> {
    match data {
        MetricDataModel::Gauge(_) => Some(("gauge"@, false)),
        MetricDataModel::Sum { points, temporality, monotonic } => {
            if temporality == Temporality::Cumulative && monotonic {
                Some(("counter"@, true))
            } else {
                Some(("gauge"@, false))
            }
        },
        MetricDataModel::Histogram(_) => Some(("histogram"@, false)),
        MetricDataModel::ExponentialHistogram => None,
    }
}

/// The name under which a metric is written, made of its sanitized name and
/// its converted unit.
///
/// First the unit: where units are wanted, `_` and the unit are added unless
/// there is no unit or the name ends with it. Then, for what only ever grows
/// and where counter suffixes are wanted, `_total` is added unless the name
/// so far ends with it.
pub open spec fn full_name(
    options: PrometheusSerializer,
    name: Seq<char>,
    unit: Seq<char>,
    monotonic: bool,
) -> Seq<char> {
    let with_unit = if options.include_units {
        with_unit_suffix(name, unit)
    } else {
        name
    };
    if monotonic && options.include_counter_suffixes && !ends_with(with_unit, "_total"@) {
        with_unit + "_total"@
    } else {
        with_unit
    }
}

/// The line that tells of what kind a metric is.
pub open spec fn type_comment(name: Seq<char>, kind: Seq<char>) -> Seq<char> {
    "# TYPE "@ + name + " "@ + kind + "\n"@
}

/// The line that tells what a metric means; nothing without a description.
pub open spec fn help_comment(name: Seq<char>, description: Seq<char>) -> Seq<char> {
    if description.len() == 0 {
        Seq::empty()
    } else {
        "# HELP "@ + name + " "@ + escaped_help(description) + "\n"@
    }
}

/// The line that tells the unit of a metric; nothing without a unit.
pub open spec fn unit_comment(name: Seq<char>, unit: Seq<char>) -> Seq<char> {
    if unit.len() == 0 {
        Seq::empty()
    } else {
        "# UNIT "@ + name + " "@ + unit + "\n"@
    }
}

/// The lines before the samples of a metric.
pub open spec fn header(
    options: PrometheusSerializer,
    name: Seq<char>,
    kind: Seq<char>,
    description: Seq<char>,
    unit: Seq<char>,
) -> Seq<char> {
    type_comment(name, kind) + help_comment(name, description) + if options.include_units {
        unit_comment(name, unit)
    } else {
        Seq::empty()
    }
}

/// A label for a text, unless the text is empty.
pub open spec fn named_label(key: Seq<char>, value: Seq<char>) -> Seq<Entry> {
    if value.len() > 0 {
        seq![Entry { key, value }]
    } else {
        Seq::empty()
    }
}

/// A label for a text that may be missing.
pub open spec fn optional_label(key: Seq<char>, value: Option<Seq<char>>) -> Seq<Entry> {
    match value {
        Some(value) => named_label(key, value),
        None => Seq::empty(),
    }
}

/// Labels with `otel_scope_` before each key.
pub open spec fn with_scope_prefix(labels: Seq<Entry>) -> Seq<Entry> {
    labels.map_values(|label: Entry| Entry { key: "otel_scope_"@ + label.key, value: label.value })
}

/// The labels for the name, the version and the schema URL of a scope, each
/// left out where the text is missing or empty.
pub open spec fn named_scope_labels(scope: ScopeModel) -> Seq<Entry> {
    named_label("otel_scope_name"@, scope.name) + optional_label(
        "otel_scope_version"@,
        scope.version,
    ) + optional_label("otel_scope_schema_url"@, scope.schema_url)
}

/// The labels that tell of the scope: none where they are not wanted.
///
/// First come the labels for the name, the version and the schema URL. Every
/// attribute of the scope follows as a label, `otel_scope_` before its key.
/// Where that key is the key of one of the first three, the value of the
/// attribute is joined to that label, behind its value and a `;`.
pub open spec fn scope_labels(options: PrometheusSerializer, scope: ScopeModel) -> Seq<Entry> {
    if options.include_scope_labels {
        absorbed_all(named_scope_labels(scope), with_scope_prefix(labels_of(scope.attributes)))
    } else {
        Seq::empty()
    }
}

/// The labels of a sample: those of its attributes, then those of the scope.
pub open spec fn point_labels(
    options: PrometheusSerializer,
    attributes: Seq<Entry>,
    scope: ScopeModel,
) -> Seq<Entry> {
    labels_of(attributes) + scope_labels(options, scope)
}

/// The labels of a bucket: those of the attributes, then `le` with the upper
/// bound, then those of the scope.
pub open spec fn bucket_labels(
    options: PrometheusSerializer,
    attributes: Seq<Entry>,
    bound: Seq<char>,
    scope: ScopeModel,
) -> Seq<Entry> {
    labels_of(attributes) + seq![Entry { key: "le"@, value: bound }] + scope_labels(options, scope)
}

/// One sample: the name, the labels, a space, the value, and the end of the
/// line.
pub open spec fn sample_line(name: Seq<char>, labels: Seq<Entry>, value: Seq<char>) -> Seq<char> {
    name + label_block(labels) + " "@ + value + "\n"@
}

/// The sample of one value of a gauge or a sum.
pub open spec fn point_line(
    options: PrometheusSerializer,
    name: Seq<char>,
    scope: ScopeModel,
    point: DataPointModel,
) -> Seq<char> {
    sample_line(name, point_labels(options, point.attributes, scope), number_text(point.value))
}

/// The samples of the values of a gauge or a sum, in their order.
pub open spec fn point_lines(
    options: PrometheusSerializer,
    name: Seq<char>,
    scope: ScopeModel,
    points: Seq<DataPointModel>,
) -> Seq<char>
    decreases points.len(),
{
    if points.len() == 0 {
        Seq::empty()
    } else {
        point_lines(options, name, scope, points.drop_last()) + point_line(
            options,
            name,
            scope,
            points.last(),
        )
    }
}

/// How many values fell into the first `buckets` buckets together.
pub open spec fn cumulative(counts: Seq<u64>, buckets: int) -> nat
    decreases buckets,
{
    if buckets <= 0 {
        0
    } else {
        cumulative(counts, buckets - 1) + counts[buckets - 1] as nat
    }
}

/// How many buckets of a histogram have a bound and a count, and so a line.
pub open spec fn bounded_buckets(point: HistogramPointModel) -> int {
    if point.bounds.len() <= point.bucket_counts.len() {
        point.bounds.len() as int
    } else {
        point.bucket_counts.len() as int
    }
}

/// The sample of one bucket: how many values were at most its bound.
pub open spec fn bucket_line(
    options: PrometheusSerializer,
    name: Seq<char>,
    scope: ScopeModel,
    point: HistogramPointModel,
    bucket: int,
) -> Seq<char> {
    sample_line(
        name + "_bucket"@,
        bucket_labels(options, point.attributes, number_text(point.bounds[bucket]), scope),
        decimal(cumulative(point.bucket_counts, bucket + 1)),
    )
}

/// The samples of the first `buckets` buckets, in the order of their bounds.
pub open spec fn bucket_lines(
    options: PrometheusSerializer,
    name: Seq<char>,
    scope: ScopeModel,
    point: HistogramPointModel,
    buckets: int,
) -> Seq<char>
    decreases buckets,
{
    if buckets <= 0 {
        Seq::empty()
    } else {
        bucket_lines(options, name, scope, point, buckets - 1) + bucket_line(
            options,
            name,
            scope,
            point,
            buckets - 1,
        )
    }
}

/// The sample of the last bucket, which has no upper bound: it holds every
/// value.
pub open spec fn total_bucket_line(
    options: PrometheusSerializer,
    name: Seq<char>,
    scope: ScopeModel,
    point: HistogramPointModel,
) -> Seq<char> {
    sample_line(
        name + "_bucket"@,
        bucket_labels(options, point.attributes, "+Inf"@, scope),
        decimal(point.count as nat),
    )
}

/// The samples of one histogram: the sum, the count, the buckets with a
/// bound, and the bucket without one.
pub open spec fn histogram_point_lines(
    options: PrometheusSerializer,
    name: Seq<char>,
    scope: ScopeModel,
    point: HistogramPointModel,
) -> Seq<char> {
    sample_line(
        name + "_sum"@,
        point_labels(options, point.attributes, scope),
        number_text(point.sum),
    ) + sample_line(
        name + "_count"@,
        point_labels(options, point.attributes, scope),
        decimal(point.count as nat),
    ) + bucket_lines(options, name, scope, point, bounded_buckets(point)) + total_bucket_line(
        options,
        name,
        scope,
        point,
    )
}

/// The samples of the histograms of a metric, in their order.
pub open spec fn histogram_lines(
    options: PrometheusSerializer,
    name: Seq<char>,
    scope: ScopeModel,
    points: Seq<HistogramPointModel>,
) -> Seq<char>
    decreases points.len(),
{
    if points.len() == 0 {
        Seq::empty()
    } else {
        histogram_lines(options, name, scope, points.drop_last()) + histogram_point_lines(
            options,
            name,
            scope,
            points.last(),
        )
    }
}

/// The samples of a metric.
pub open spec fn sample_lines(
    options: PrometheusSerializer,
    name: Seq<char>,
    scope: ScopeModel,
    data: MetricDataModel,
) -> Seq<char> {
    match data {
        MetricDataModel::Gauge(points) => point_lines(options, name, scope, points),
        MetricDataModel::Sum { points, temporality, monotonic } => point_lines(
            options,
            name,
            scope,
            points,
        ),
        MetricDataModel::Histogram(points) => histogram_lines(options, name, scope, points),
        MetricDataModel::ExponentialHistogram => Seq::empty(),
    }
}

/// All that is written for a metric: the header, the samples and an empty
/// line; nothing at all for a metric without a kind.
pub open spec fn metric_text(
    options: PrometheusSerializer,
    scope: ScopeModel,
    metric: MetricModel,
) -> Seq<char> {
    match prometheus_type(metric.data) {
        Some((kind, monotonic)) => {
            let unit = converted_unit(metric.unit);
            let name = full_name(options, sanitized(metric.name), unit, monotonic);
            header(options, name, kind, metric.description, unit) + sample_lines(
                options,
                name,
                scope,
                metric.data,
            ) + "\n"@
        },
        None => Seq::empty(),
    }
}

/// All that is written for the metrics of a scope, in their order.
pub open spec fn metrics_text(
    options: PrometheusSerializer,
    scope: ScopeModel,
    metrics: Seq<MetricModel>,
) -> Seq<char>
    decreases metrics.len(),
{
    if metrics.len() == 0 {
        Seq::empty()
    } else {
        metrics_text(options, scope, metrics.drop_last()) + metric_text(
            options,
            scope,
            metrics.last(),
        )
    }
}

/// All that is written for the scopes, in their order.
pub open spec fn scopes_text(options: PrometheusSerializer, scopes: Seq<ScopeGroupModel>) -> Seq<
    char,
>
    decreases scopes.len(),
{
    if scopes.len() == 0 {
        Seq::empty()
    } else {
        scopes_text(options, scopes.drop_last()) + metrics_text(
            options,
            scopes.last().scope,
            scopes.last().metrics,
        )
    }
}

/// The block that carries the resource attributes as the labels of the gauge
/// `target_info`: nothing where it is not wanted or the resource has no
/// attributes.
pub open spec fn resource_text(options: PrometheusSerializer, resource: Seq<Entry>) -> Seq<char> {
    if options.include_target_info && resource.len() > 0 {
        type_comment("target_info"@, "gauge"@) + help_comment(
            "target_info"@,
            "Target metadata"@,
        ) + "target_info"@ + label_block(labels_of(resource)) + " 1\n"@
    } else {
        Seq::empty()
    }
}

/// The text of a snapshot: the scopes, then the resource.
pub open spec fn snapshot_text(options: PrometheusSerializer, snapshot: SnapshotModel) -> Seq<
    char,
> {
    scopes_text(options, snapshot.scopes) + resource_text(options, snapshot.resource)
}

/// A sum is written as a counter exactly where it counts from the start and
/// only grows; any other sum is written as a gauge.
pub proof fn lemma_sum_is_counter_or_gauge(
    points: Seq<DataPointModel>,
    temporality: Temporality,
    monotonic: bool,
)
    ensures
        (temporality == Temporality::Cumulative && monotonic) <==> prometheus_type(
            MetricDataModel::Sum { points, temporality, monotonic },
        ) == Some(("counter"@, true)),
        !(temporality == Temporality::Cumulative && monotonic) <==> prometheus_type(
            MetricDataModel::Sum { points, temporality, monotonic },
        ) == Some(("gauge"@, false)),
{
}

/// Nothing at all is written for a histogram with exponential buckets.
pub proof fn lemma_exponential_histogram_is_skipped(
    options: PrometheusSerializer,
    scope: ScopeModel,
    metric: MetricModel,
)
    requires
        metric.data is ExponentialHistogram,
    ensures
        metric_text(options, scope, metric) == Seq::<char>::empty(),
{
}

/// Where both suffixes are added, the unit comes first and `_total` last.
pub proof fn lemma_unit_comes_before_total(
    options: PrometheusSerializer,
    name: Seq<char>,
    unit: Seq<char>,
)
    requires
        options.include_units,
        options.include_counter_suffixes,
        unit.len() > 0,
        !ends_with(name, unit),
        !ends_with(name + "_"@ + unit, "_total"@),
    ensures
        full_name(options, name, unit, true) == name + "_"@ + unit + "_total"@,
{
}

/// Where counter suffixes are wanted, the name of what only ever grows ends
/// with `_total`.
pub proof fn lemma_counter_name_ends_with_total(
    options: PrometheusSerializer,
    name: Seq<char>,
    unit: Seq<char>,
)
    requires
        options.include_counter_suffixes,
    ensures
        ends_with(full_name(options, name, unit, true), "_total"@),
{
    let with_unit = full_name(options, name, unit, false);
    if !ends_with(with_unit, "_total"@) {
        let full = with_unit + "_total"@;
        assert(full.subrange(full.len() - "_total"@.len(), full.len() as int) =~= "_total"@);
    }
}

/// Without units and counter suffixes the name is the sanitized name.
pub proof fn lemma_bare_name_is_kept(
    options: PrometheusSerializer,
    name: Seq<char>,
    unit: Seq<char>,
    monotonic: bool,
)
    requires
        !options.include_units,
        !options.include_counter_suffixes,
    ensures
        full_name(options, name, unit, monotonic) == name,
{
}

/// The counts of the buckets never fall from one bound to the next: each
/// bucket line holds at least what the line before it holds.
pub proof fn lemma_cumulative_never_falls(counts: Seq<u64>, earlier: int, later: int)
    requires
        earlier <= later,
    ensures
        cumulative(counts, earlier) <= cumulative(counts, later),
    decreases later - earlier,
{
    if earlier < later {
        lemma_cumulative_never_falls(counts, earlier, later - 1);
    }
}

/// The samples of a histogram end with the bucket without a bound, and its
/// value is the number of all values.
pub proof fn lemma_histogram_ends_with_total(
    options: PrometheusSerializer,
    name: Seq<char>,
    scope: ScopeModel,
    point: HistogramPointModel,
)
    ensures
        ends_with(
            histogram_point_lines(options, name, scope, point),
            sample_line(
                name + "_bucket"@,
                bucket_labels(options, point.attributes, "+Inf"@, scope),
                decimal(point.count as nat),
            ),
        ),
{
    let all = histogram_point_lines(options, name, scope, point);
    let last = total_bucket_line(options, name, scope, point);
    assert(all.subrange(all.len() - last.len(), all.len() as int) =~= last);
}

/// A resource without attributes has no block: the text of the snapshot is
/// that of its scopes.
pub proof fn lemma_empty_resource_has_no_block(
    options: PrometheusSerializer,
    snapshot: SnapshotModel,
)
    requires
        snapshot.resource.len() == 0,
    ensures
        resource_text(options, snapshot.resource) == Seq::<char>::empty(),
        snapshot_text(options, snapshot) == scopes_text(options, snapshot.scopes),
{
}

/// With the resource block switched off the text of the snapshot is that of
/// its scopes, whatever the resource holds.
pub proof fn lemma_target_info_can_be_switched_off(
    options: PrometheusSerializer,
    snapshot: SnapshotModel,
)
    requires
        !options.include_target_info,
    ensures
        snapshot_text(options, snapshot) == scopes_text(options, snapshot.scopes),
{
}

/// With the scope labels switched off a sample has the labels of its
/// attributes and no others.
pub proof fn lemma_scope_labels_can_be_switched_off(
    options: PrometheusSerializer,
    attributes: Seq<Entry>,
    scope: ScopeModel,
)
    requires
        !options.include_scope_labels,
    ensures
        point_labels(options, attributes, scope) == labels_of(attributes),
{
}

/// Labels with different keys have different keys with the prefix before
/// them.
pub proof fn lemma_prefix_keeps_keys_apart(labels: Seq<Entry>)
    requires
        forall|i: int, j: int|
            0 <= i < j < labels.len() ==> (#[trigger] labels[i]).key != (#[trigger] labels[j]).key,
    ensures
        forall|i: int, j: int|
            0 <= i < j < with_scope_prefix(labels).len() ==> (#[trigger] with_scope_prefix(
                labels,
            )[i]).key != (#[trigger] with_scope_prefix(labels)[j]).key,
{
    let prefix = "otel_scope_"@;
    let prefixed = with_scope_prefix(labels);
    assert forall|i: int, j: int| 0 <= i < j < prefixed.len() implies (#[trigger] prefixed[i]).key
        != (#[trigger] prefixed[j]).key by {
        let first = labels[i].key;
        let second = labels[j].key;
        assert((prefix + first).subrange(prefix.len() as int, (prefix + first).len() as int)
            =~= first);
        assert((prefix + second).subrange(prefix.len() as int, (prefix + second).len() as int)
            =~= second);
    }
}

/// No attribute of a scope is dropped: for each there is a label whose key
/// is `otel_scope_` and the sanitized key of the attribute.
pub proof fn lemma_scope_labels_keep_every_attribute(
    options: PrometheusSerializer,
    scope: ScopeModel,
    i: int,
)
    requires
        options.include_scope_labels,
        0 <= i < scope.attributes.len(),
    ensures
        has_key(scope_labels(options, scope), "otel_scope_"@ + sanitized(scope.attributes[i].key)),
{
    let given = scope.attributes;
    let sorted = ordered(given);
    let own = merged(sorted);
    let prefixed = with_scope_prefix(own);
    let key = sanitized(given[i].key);
    lemma_entry_order_is_total();
    given.lemma_sort_by_ensures(entry_order());
    vstd::seq_lib::to_multiset_contains(given, given[i]);
    vstd::seq_lib::to_multiset_contains(sorted, given[i]);
    assert(given.contains(given[i]));
    let j = choose|j: int| 0 <= j < sorted.len() && sorted[j] == given[i];
    lemma_merged_keeps_every_key(sorted, j);
    lemma_has_key(own, key);
    let at = choose|at: int| 0 <= at < own.len() && (#[trigger] own[at]).key == key;
    assert(prefixed[at].key == "otel_scope_"@ + key);
    lemma_has_key(prefixed, "otel_scope_"@ + key);
    lemma_absorbed_all_keys(named_scope_labels(scope), prefixed, "otel_scope_"@ + key);
}

/// Where no attribute of a scope comes to the key of the label for the name,
/// the version or the schema URL, the labels of the scope are those three,
/// as far as they are there, and then one label for each key of the
/// attributes.
pub proof fn lemma_scope_labels_apart(options: PrometheusSerializer, scope: ScopeModel)
    requires
        options.include_scope_labels,
        forall|i: int|
            0 <= i < labels_of(scope.attributes).len() ==> !has_key(
                named_scope_labels(scope),
                "otel_scope_"@ + (#[trigger] labels_of(scope.attributes)[i]).key,
            ),
    ensures
        scope_labels(options, scope) == named_scope_labels(scope) + with_scope_prefix(
            labels_of(scope.attributes),
        ),
{
    let own = labels_of(scope.attributes);
    let prefixed = with_scope_prefix(own);
    lemma_merged_keys_are_distinct(ordered(scope.attributes));
    lemma_prefix_keeps_keys_apart(own);
    assert forall|i: int| 0 <= i < prefixed.len() implies !has_key(
        named_scope_labels(scope),
        (#[trigger] prefixed[i]).key,
    ) by {
        assert(prefixed[i].key == "otel_scope_"@ + own[i].key);
    }
    lemma_absorbed_all_apart(named_scope_labels(scope), prefixed);
}

/// A scope without a name, a version and a schema URL has one label for each
/// key of its attributes, whatever the keys are, and no other.
pub proof fn lemma_scope_labels_without_named_texts(
    options: PrometheusSerializer,
    scope: ScopeModel,
)
    requires
        options.include_scope_labels,
        scope.name.len() == 0,
        scope.version matches Some(version) ==> version.len() == 0,
        scope.schema_url matches Some(schema_url) ==> schema_url.len() == 0,
    ensures
        scope_labels(options, scope) == with_scope_prefix(labels_of(scope.attributes)),
{
    assert(named_scope_labels(scope) =~= Seq::<Entry>::empty());
    lemma_scope_labels_apart(options, scope);
    assert(named_scope_labels(scope) + with_scope_prefix(labels_of(scope.attributes))
        =~= with_scope_prefix(labels_of(scope.attributes)));
}

/// Where a scope has a name and an attribute that comes to the key `name`,
/// neither is dropped: the label `otel_scope_name` holds the name, then `;`,
/// then the value of the attribute.
pub proof fn lemma_scope_name_and_attribute_are_joined(
    options: PrometheusSerializer,
    scope: ScopeModel,
    attribute: Entry,
)
    requires
        options.include_scope_labels,
        scope.name.len() > 0,
        scope.version is None,
        scope.schema_url is None,
        scope.attributes == seq![attribute],
        sanitized(attribute.key) == "name"@,
    ensures
        scope_labels(options, scope) == seq![
            Entry { key: "otel_scope_name"@, value: scope.name + ";"@ + attribute.value },
        ],
{
    reveal_strlit("otel_scope_");
    reveal_strlit("name");
    reveal_strlit("otel_scope_name");
    lemma_single_attribute_label(attribute);
    let named = named_scope_labels(scope);
    let prefixed = with_scope_prefix(labels_of(scope.attributes));
    assert(named =~= seq![Entry { key: "otel_scope_name"@, value: scope.name }]);
    assert("otel_scope_"@ + "name"@ =~= "otel_scope_name"@);
    assert(prefixed =~= seq![Entry { key: "otel_scope_name"@, value: attribute.value }]);
    assert(absorbed_all(named, prefixed.drop_last()) == named);
    assert(key_position(named, "otel_scope_name"@) == 0);
    assert(scope_labels(options, scope) =~= seq![
        Entry { key: "otel_scope_name"@, value: scope.name + ";"@ + attribute.value },
    ]);
}

/// A metric whose unit comes to nothing has no line for the unit: its kind
/// and its description are told once, then come the samples.
pub proof fn lemma_metric_without_unit(
    options: PrometheusSerializer,
    scope: ScopeModel,
    metric: MetricModel,
)
    requires
        converted_unit(metric.unit).len() == 0,
        prometheus_type(metric.data) is Some,
    ensures
        ({
            let (kind, monotonic) = prometheus_type(metric.data)->0;
            let name = full_name(options, sanitized(metric.name), Seq::empty(), monotonic);
            metric_text(options, scope, metric) == type_comment(name, kind) + help_comment(
                name,
                metric.description,
            ) + sample_lines(options, name, scope, metric.data) + "\n"@
        }),
{
    let (kind, monotonic) = prometheus_type(metric.data)->0;
    let unit = converted_unit(metric.unit);
    assert(unit =~= Seq::<char>::empty());
    let name = full_name(options, sanitized(metric.name), unit, monotonic);
    assert(header(options, name, kind, metric.description, unit) =~= type_comment(name, kind)
        + help_comment(name, metric.description));
}

/// A metric whose unit is nothing but a text between brackets, such as
/// `{request}`, has no line for the unit, and no unit in its name.
pub proof fn lemma_annotated_metric_has_no_unit_line(
    options: PrometheusSerializer,
    scope: ScopeModel,
    metric: MetricModel,
    inner: Seq<char>,
)
    requires
        metric.unit == seq!['{'] + inner + seq!['}'],
        !inner.contains('}'),
        prometheus_type(metric.data) is Some,
    ensures
        ({
            let (kind, monotonic) = prometheus_type(metric.data)->0;
            let name = full_name(options, sanitized(metric.name), Seq::empty(), monotonic);
            metric_text(options, scope, metric) == type_comment(name, kind) + help_comment(
                name,
                metric.description,
            ) + sample_lines(options, name, scope, metric.data) + "\n"@
        }),
{
    lemma_annotation_comes_to_nothing(inner);
    lemma_metric_without_unit(options, scope, metric);
}

/// Where the number of all values of a histogram is that of the values in
/// its buckets, no bucket line holds more than the line of the bucket
/// without a bound.
pub proof fn lemma_total_is_not_below_buckets(point: HistogramPointModel, bucket: int)
    requires
        point.count == cumulative(point.bucket_counts, point.bucket_counts.len() as int),
        0 <= bucket < bounded_buckets(point),
    ensures
        cumulative(point.bucket_counts, bucket + 1) <= point.count,
{
    lemma_cumulative_never_falls(point.bucket_counts, bucket + 1, point.bucket_counts.len() as int);
}

/// The block of a resource with attributes, where it is wanted: the kind,
/// the description, and one sample with the value 1.
pub proof fn lemma_resource_block(options: PrometheusSerializer, resource: Seq<Entry>)
    requires
        options.include_target_info,
        resource.len() > 0,
    ensures
        resource_text(options, resource) == "# TYPE target_info gauge\n"@
            + "# HELP target_info Target metadata\n"@ + "target_info"@ + label_block(
            labels_of(resource),
        ) + " 1\n"@,
{
    reveal_strlit("# TYPE ");
    reveal_strlit("# HELP ");
    reveal_strlit("target_info");
    reveal_strlit(" ");
    reveal_strlit("gauge");
    reveal_strlit("\n");
    reveal_strlit("Target metadata");
    reveal_strlit("# TYPE target_info gauge\n");
    reveal_strlit("# HELP target_info Target metadata\n");
    lemma_plain_help_is_unchanged("Target metadata"@);
    assert(type_comment("target_info"@, "gauge"@) =~= "# TYPE target_info gauge\n"@);
    assert(help_comment("target_info"@, "Target metadata"@)
        =~= "# HELP target_info Target metadata\n"@);
}

} // verus!
