//! Ingestion core for greenhouse sensor telemetry: payload decoding and
//! validation, device gating, idempotent storage decisions and the
//! subscription loop's state machine.

pub mod decimal;
pub mod device_id;
pub mod json;
pub mod message;
pub mod pipeline;
pub mod store;
pub mod config;
