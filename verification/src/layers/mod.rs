//! Layers: accessors made from accessors.

pub mod complete;
pub mod prometheus;
pub mod writer;

pub use complete::{CompleteLayer, CompletePager, CompleteReader, CompleteReaderAccessor};
pub use prometheus::{
    MetricsRegistry, Operation, PrometheusAccessor, PrometheusLayer, PrometheusMetricWrapper,
    PrometheusMetrics,
};
pub use writer::{CompleteAppender, CompleteWriter};
