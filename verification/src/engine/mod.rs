//! The SeaTurtle agent engine: chat state, tool permissions, context size,
//! system prompts, tool results and the chat's markdown.
pub mod context;
pub mod lore;
pub mod orchestrator;
pub mod permissions;
pub mod render;
pub mod types;
