//! Security Island: a capability firewall for AI coding agents. Requests that
//! agents send to cmux run through deterministic scanners; the finding of
//! highest precedence decides whether a request is allowed, watched or held
//! for a human decision.
pub mod control;
pub mod darwin;
pub mod demo_scanner;
pub mod engine;
pub mod launch;
pub mod mcp;
pub mod paths;
pub mod patterns;
pub mod plugin_api;
pub mod scanners;
pub mod setup;
pub mod shared;
pub mod text;
