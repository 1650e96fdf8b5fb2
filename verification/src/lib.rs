//! An exporter of the statistics of a DNS-filtering appliance: it turns the
//! responses of the appliance's API into time series and holds them in a
//! metric store that is written out in the text exposition format.

pub mod aggregate;
pub mod api;
pub mod client;
pub mod collector;
pub mod cycle;
pub mod exposition;
pub mod family;
pub mod format;
pub mod handlers;
pub mod labels;
pub mod metrics;
pub mod store;
pub mod text;
pub mod window;

pub use client::{ExporterError, FetchError};
pub use collector::{PiholeCollector, ScrapeData};
pub use family::{MetricEntry, MetricFamily};
pub use handlers::{health_handler, metrics_handler, HttpReply};
pub use metrics::PiholeMetrics;
