//! The snapshot that is encoded: what an application has measured, grouped
//! by the scope that measured it, together with the resource it ran on.
//!
//! Each type has a mathematical model, its deep view, in which text is a
//! sequence of characters and a list is a sequence. The rules of the
//! encoding are stated over these models.

use vstd::prelude::*;

verus! {

/// A key with its value: the model of an attribute, and of a label.
pub struct Entry {
    pub key: Seq<char>,
    pub value: Seq<char>,
}

/// A key with its value, the value as the text that stands for it.
#[derive(Debug, Clone)]
pub struct Attribute {
    pub key: String,
    pub value: String,
}

impl DeepView for Attribute {
    type V = Entry;

    open spec fn deep_view(&self) -> Entry {
        Entry { key: self.key@, value: self.value@ }
    }
}

/// A number as it was measured.
///
/// A whole number is held as it is. One with a fraction is held by its kind:
/// not a number, one of the two infinities, or the decimal text of a finite
/// value.
#[derive(Debug, Clone)]
pub enum Number {
    Unsigned(u64),
    Signed(i64),
    NotANumber,
    PositiveInfinity,
    NegativeInfinity,
    Decimal(String),
}

/// The model of a [`Number`].
pub enum NumberModel {
    Unsigned(u64),
    Signed(i64),
    NotANumber,
    PositiveInfinity,
    NegativeInfinity,
    Decimal(Seq<char>),
}

impl DeepView for Number {
    type V = NumberModel;

    open spec fn deep_view(&self) -> NumberModel {
        match self {
            Number::Unsigned(n) => NumberModel::Unsigned(*n),
            Number::Signed(n) => NumberModel::Signed(*n),
            Number::NotANumber => NumberModel::NotANumber,
            Number::PositiveInfinity => NumberModel::PositiveInfinity,
            Number::NegativeInfinity => NumberModel::NegativeInfinity,
            Number::Decimal(text) => NumberModel::Decimal(text@),
        }
    }
}

/// One value of a gauge or a sum, with the attributes it was measured under.
#[derive(Debug, Clone)]
pub struct DataPoint {
    pub attributes: Vec<Attribute>,
    pub value: Number,
}

/// The model of a [`DataPoint`].
pub struct DataPointModel {
    pub attributes: Seq<Entry>,
    pub value: NumberModel,
}

impl DeepView for DataPoint {
    type V = DataPointModel;

    open spec fn deep_view(&self) -> DataPointModel {
        DataPointModel { attributes: self.attributes.deep_view(), value: self.value.deep_view() }
    }
}

/// One histogram: the upper bounds of its buckets in ascending order, how
/// many values fell into each bucket, and the number and the sum of all
/// values.
#[derive(Debug, Clone)]
pub struct HistogramPoint {
    pub attributes: Vec<Attribute>,
    pub bounds: Vec<Number>,
    pub bucket_counts: Vec<u64>,
    pub count: u64,
    pub sum: Number,
}

/// The model of a [`HistogramPoint`].
pub struct HistogramPointModel {
    pub attributes: Seq<Entry>,
    pub bounds: Seq<NumberModel>,
    pub bucket_counts: Seq<u64>,
    pub count: u64,
    pub sum: NumberModel,
}

impl DeepView for HistogramPoint {
    type V = HistogramPointModel;

    open spec fn deep_view(&self) -> HistogramPointModel {
        HistogramPointModel {
            attributes: self.attributes.deep_view(),
            bounds: self.bounds.deep_view(),
            bucket_counts: self.bucket_counts@,
            count: self.count,
            sum: self.sum.deep_view(),
        }
    }
}

/// Whether a sum counts from the start or from the report before.
#[derive(Debug, Clone, Copy, PartialEq, Eq, Structural)]
pub enum Temporality {
    Cumulative,
    Delta,
    LowMemory,
}

/// What a metric holds.
#[derive(Debug, Clone)]
pub enum MetricData {
    Gauge(Vec<DataPoint>),
    Sum { points: Vec<DataPoint>, temporality: Temporality, monotonic: bool },
    Histogram(Vec<HistogramPoint>),
    /// A histogram with exponential buckets. It has no text form, so what it
    /// measured is not held.
    ExponentialHistogram,
}

/// The model of [`MetricData`].
pub enum MetricDataModel {
    Gauge(Seq<DataPointModel>),
    Sum { points: Seq<DataPointModel>, temporality: Temporality, monotonic: bool },
    Histogram(Seq<HistogramPointModel>),
    ExponentialHistogram,
}

impl DeepView for MetricData {
    type V = MetricDataModel;

    open spec fn deep_view(&self) -> MetricDataModel {
        match self {
            MetricData::Gauge(points) => MetricDataModel::Gauge(points.deep_view()),
            MetricData::Sum { points, temporality, monotonic } => MetricDataModel::Sum {
                points: points.deep_view(),
                temporality: *temporality,
                monotonic: *monotonic,
            },
            MetricData::Histogram(points) => MetricDataModel::Histogram(points.deep_view()),
            MetricData::ExponentialHistogram => MetricDataModel::ExponentialHistogram,
        }
    }
}

/// A metric: its name, what it means, its unit, and what it measured. The
/// description and the unit may be empty.
#[derive(Debug, Clone)]
pub struct Metric {
    pub name: String,
    pub description: String,
    pub unit: String,
    pub data: MetricData,
}

/// The model of a [`Metric`].
pub struct MetricModel {
    pub name: Seq<char>,
    pub description: Seq<char>,
    pub unit: Seq<char>,
    pub data: MetricDataModel,
}

impl DeepView for Metric {
    type V = MetricModel;

    open spec fn deep_view(&self) -> MetricModel {
        MetricModel {
            name: self.name@,
            description: self.description@,
            unit: self.unit@,
            data: self.data.deep_view(),
        }
    }
}

/// The part of a program that measured a group of metrics.
#[derive(Debug, Clone)]
pub struct Scope {
    pub name: String,
    pub version: Option<String>,
    pub schema_url: Option<String>,
    pub attributes: Vec<Attribute>,
}

/// The model of a [`Scope`].
pub struct ScopeModel {
    pub name: Seq<char>,
    pub version: Option<Seq<char>>,
    pub schema_url: Option<Seq<char>>,
    pub attributes: Seq<Entry>,
}

/// The model of a text that may be missing.
pub open spec fn optional_text(text: Option<String>) -> Option<Seq<char>> {
    match text {
        Some(text) => Some(text@),
        None => None,
    }
}

impl DeepView for Scope {
    type V = ScopeModel;

    open spec fn deep_view(&self) -> ScopeModel {
        ScopeModel {
            name: self.name@,
            version: optional_text(self.version),
            schema_url: optional_text(self.schema_url),
            attributes: self.attributes.deep_view(),
        }
    }
}

/// A scope with the metrics it measured.
#[derive(Debug, Clone)]
pub struct ScopeGroup {
    pub scope: Scope,
    pub metrics: Vec<Metric>,
}

/// The model of a [`ScopeGroup`].
pub struct ScopeGroupModel {
    pub scope: ScopeModel,
    pub metrics: Seq<MetricModel>,
}

impl DeepView for ScopeGroup {
    type V = ScopeGroupModel;

    open spec fn deep_view(&self) -> ScopeGroupModel {
        ScopeGroupModel { scope: self.scope.deep_view(), metrics: self.metrics.deep_view() }
    }
}

/// All that was measured at one moment.
#[derive(Debug, Clone)]
pub struct Snapshot {
    /// The attributes of the resource; there may be none.
    pub resource: Vec<Attribute>,
    pub scopes: Vec<ScopeGroup>,
}

/// The model of a [`Snapshot`].
pub struct SnapshotModel {
    pub resource: Seq<Entry>,
    pub scopes: Seq<ScopeGroupModel>,
}

impl DeepView for Snapshot {
    type V = SnapshotModel;

    open spec fn deep_view(&self) -> SnapshotModel {
        SnapshotModel { resource: self.resource.deep_view(), scopes: self.scopes.deep_view() }
    }
}

} // verus!
