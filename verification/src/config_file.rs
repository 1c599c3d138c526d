//! The declarative configuration consumed by the derivation engine.
//!
//! It is loaded from YAML outside this library and handed in as an immutable
//! value; every component receives it explicitly.

use vstd::prelude::*;

verus! {

/// A label attached to every emitted metric, resolved once per pass against
/// the original, unscoped document.
#[derive(Clone, Debug)]
pub struct GlobalLabel {
    pub name: String,
    pub selector: String,
}

/// A named rule for extracting metrics from nested sibling sub-objects,
/// joined by a label discovered from `label_selector`.
#[derive(Clone, Debug)]
pub struct Include {
    pub name: String,
    pub selector: Vec<String>,
    pub label_name: String,
    pub label_selector: String,
}

/// The configuration: which JSON key is the gauge, the optional one-hot
/// candidate values, the optional global labels, the optional includes, and
/// the optional name prefix applied when rendering.
#[derive(Clone, Debug)]
pub struct ConfigFile {
    pub gauge_field: String,
    pub global_labels: Option<Vec<GlobalLabel>>,
    pub gauge_field_values: Option<Vec<String>>,
    pub includes: Option<Vec<Include>>,
    pub global_prefix: Option<String>,
}

impl ConfigFile {
    /// True when the configuration switches extraction into one-hot mode.
    pub fn has_gauge_values(&self) -> (r: bool)
        ensures
            r == self.gauge_field_values is Some,
    {
        self.gauge_field_values.is_some()
    }
}

} // verus!
