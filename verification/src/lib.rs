//! Trace-aware structured logging and B3 trace propagation for web services.
//!
//! The crate holds the rules of the observability core: how trace
//! identifiers are rendered and parsed, how a trace context is derived for a
//! request or an outbound call, which fields a span carries, and how one log
//! line is laid out.

pub mod client;
pub mod error;
pub mod fields;
pub mod health;
pub mod hex;
pub mod log;
pub mod names;
pub mod server;
pub mod trace;
pub mod web;

pub use client::set_trace;
pub use error::{ErrorBody, FallError};
pub use fields::{current_trace_id, new_child_span, ExtendedLog, PADDING};
pub use health::{modify_health, Health, HealthStatus};
pub use hex::u64_hex;
pub use log::{FallLog, Level};
pub use server::{set_config, Application, DefaultFallServer};
pub use trace::{from_req, B3Headers, OpenTrace};
pub use web::DefaultRequestHandler;
