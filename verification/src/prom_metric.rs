//! A metric: a name, an optional signed value (a missing value renders as 0),
//! and an optional ordered list of labels.

use vstd::prelude::*;
use crate::prom_label::{labels_view, opt_labels_view, LabelModel, PromLabel};

verus! {

/// The mathematical value of a metric.
#[verifier::ext_equal]
pub ghost struct MetricModel {
    pub name: Seq<char>,
    pub value: Option<i64>,
    pub labels: Option<Seq<LabelModel>>,
}

/// The views of a sequence of metrics, in order.
pub open spec fn metrics_view(ms: Seq<PromMetric>) -> Seq<MetricModel> {
    ms.map_values(|m: PromMetric| m@)
}

#[derive(Debug)]
pub struct PromMetric {
    pub name: String,
    pub value: Option<i64>,
    pub labels: Option<Vec<PromLabel>>,
}

impl View for PromMetric {
    type V = MetricModel;

    open spec fn view(&self) -> MetricModel {
        MetricModel { name: self.name@, value: self.value, labels: opt_labels_view(self.labels) }
    }
}

impl PromMetric {
    pub fn new(name: String, value: Option<i64>, labels: Option<Vec<PromLabel>>) -> (r: Self)
        ensures
            r@.name == name@,
            r@.value == value,
            r@.labels == opt_labels_view(labels),
    {
        Self { name, value, labels }
    }
}

} // verus!
