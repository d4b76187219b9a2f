//! Tank telemetry: sensor reading conversion, latest-value stores, the HTTP
//! query replies and the status panel layout, all with verified contracts.

pub mod scan;
pub mod fixed;
pub mod error;
pub mod clock;
pub mod measurements;
pub mod signal;
pub mod store;
pub mod api;
pub mod display;
