pub mod bridge;
pub mod client;
pub mod codec;
pub mod config;
pub mod error;
pub mod json;
pub mod query;
pub mod response;
pub mod text;
pub mod time;
pub mod types;

pub use config::{default_timeout, AuthMethod, BackendConfig, SigNozConfig};
pub use error::OtlpError;
pub use types::{
    LogEntry, LogQuery, MetricPoint, MetricQuery, MetricSeries, QueryResult, ServiceInfo, Span,
    TimeRange, TraceQuery,
};
