//! Converts a JSON document into flat, named, labeled numeric metrics for
//! scrape-based monitoring, driven by a declarative configuration that names
//! a gauge field, optional one-hot gauge values, global labels, and nested
//! "include" extraction rules.
//!
//! The selector evaluator (a `jq`-style path query tool), the HTTP fetch and
//! the YAML configuration loading are external collaborators: callers resolve
//! selectors and hand the raw JSON texts to this library, which parses,
//! classifies and derives the metrics.

pub mod casing;
pub mod config_file;
pub mod custom_include;
pub mod exporter;
pub mod jq;
pub mod json;
pub mod json_object_processor;
pub mod payload;
pub mod payload_error;
pub mod prom_label;
pub mod prom_metric;
pub mod selector_error;
pub mod utils;
