//! Logic behind the web dashboard: response data, errors, asset types,
//! client messages and the metric history store.
pub mod api;
pub mod embedded;
pub mod error;
pub mod metrics;
pub mod ws;
