//! Export options.

use vstd::prelude::*;

verus! {

/// The optional parts of the output that a caller may switch off.
#[derive(Debug, Clone, Copy)]
pub struct ExporterConfig {
    /// Leave out the `target_info` block that carries the resource attributes.
    pub disable_target_info: bool,
    /// Leave out unit suffixes of metric names and `# UNIT` lines.
    pub without_units: bool,
    /// Leave out the `_total` suffix of counters.
    pub without_counter_suffixes: bool,
    /// Leave out the `otel_scope_*` labels.
    pub disable_scope_info: bool,
}

impl Default for ExporterConfig {
    /// Everything switched on.
    fn default() -> (config: Self)
        ensures
            !config.disable_target_info,
            !config.without_units,
            !config.without_counter_suffixes,
            !config.disable_scope_info,
    {
        ExporterConfig {
            disable_target_info: false,
            without_units: false,
            without_counter_suffixes: false,
            disable_scope_info: false,
        }
    }
}

} // verus!
