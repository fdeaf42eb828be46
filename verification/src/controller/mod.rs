//! Controllers of the custom resources.

pub mod externalpodautoscaler;
pub mod laws;
pub mod membership;
pub mod metric;
pub mod run;
pub mod work_assigner;
