//! External metric values as Kubernetes writes them.

use crate::labels::Labels;
use vstd::prelude::*;

verus! {

/// External metric value
#[derive(Debug, Clone)]
pub struct ExternalMetricValue {
    pub metric_name: String,
    pub metric_labels: Labels,
    pub value: String,
    /// Microseconds since the Unix epoch
    pub timestamp: i64,
}

/// External metric value list
#[derive(Debug, Clone)]
pub struct ExternalMetricValueList {
    pub api_version: String,
    pub kind: String,
    pub items: Vec<ExternalMetricValue>,
}

impl ExternalMetricValueList {
    /// Whether this is the list of the given values.
    pub open spec fn lists(self, items: Seq<ExternalMetricValue>) -> bool {
        &&& self.api_version@ == "external.metrics.k8s.io/v1beta1"@
        &&& self.kind@ == "ExternalMetricValueList"@
        &&& self.items@ == items
    }

    /// Creates a new list with the given metric values.
    pub fn new(items: Vec<ExternalMetricValue>) -> (r: ExternalMetricValueList)
        ensures
            r.lists(items@),
    {
        ExternalMetricValueList {
            api_version: "external.metrics.k8s.io/v1beta1".to_owned(),
            kind: "ExternalMetricValueList".to_owned(),
            items,
        }
    }

    /// Creates an empty list with no metric values.
    pub fn empty() -> (r: ExternalMetricValueList)
        ensures
            r.lists(seq![]),
    {
        ExternalMetricValueList::new(Vec::new())
    }
}

} // verus!
