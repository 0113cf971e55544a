//! Encoding of a metrics snapshot into the Prometheus text exposition format.
//!
//! A [`Snapshot`] holds what was measured at one moment: gauges, sums and
//! histograms, grouped by the scope that measured them, and the attributes of
//! the resource. A [`PrometheusSerializer`] turns it into comment lines
//! (`# TYPE`, `# HELP`, `# UNIT`) and sample lines (`name{labels} value`).
//!
//! The rules of the encoding are specification functions over mathematical
//! models of the data, and each function that writes text is proved to write
//! what they say:
//!
//! - [`sanitize`]: names that match `[A-Za-z_:][A-Za-z0-9_:]*`;
//! - [`unit`]: units as words, and names with their unit;
//! - [`escape`] and [`decimal`]: descriptions, label values and numbers as
//!   text;
//! - [`order`] and [`labels`]: attributes as labels, one label for each key;
//! - [`format`]: the text of a metric, a scope, the resource and the whole
//!   snapshot;
//! - [`serialize`]: the encoder.

pub mod config;
pub mod decimal;
pub mod escape;
pub mod format;
pub mod labels;
pub mod model;
pub mod order;
pub mod sanitize;
pub mod serialize;
pub mod text;
pub mod unit;

pub use self::config::ExporterConfig;
pub use self::model::Snapshot;
pub use self::serialize::PrometheusSerializer;
