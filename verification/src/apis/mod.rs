//! Custom resources of the group `ctx.sh`, version `v1beta1`.

pub mod externalpodautoscaler;
pub mod metric;
