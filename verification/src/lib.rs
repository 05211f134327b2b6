//! An API gateway core: request filtering, rate limiting, routing and telemetry.

pub mod text;
pub mod auth;
pub mod config;
pub mod router;
pub mod clock;
pub mod metrics;
pub mod limiter;
pub mod ipv4;
pub mod pattern;
pub mod waf;
pub mod gateway;
