//! A protocol-aware print proxy: message rewriting, payload boundary
//! detection and page captioning, and the per-request decision flow.
pub mod envelope;
pub mod model;
pub mod caption;
pub mod uri_path;
pub mod message;
pub mod flow;
pub mod forward;
