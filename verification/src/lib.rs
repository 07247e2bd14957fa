//! A request-rewriting reverse proxy for a completion API.
//!
//! The library holds the verified logic of the proxy: the routing gate, the
//! outbound request construction (URL and header allow-listing), and the
//! payload transformer that rewrites a JSON request body so that its `system`
//! instruction list always opens with the fixed prompt and a reasoning budget
//! is always requested. The surrounding HTTP plumbing lives outside the
//! library and hands it plain values.

pub mod constants;
pub mod json;
pub mod payload;
pub mod proxy_core;
