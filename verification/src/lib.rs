//! Calling a secondary language model by a pre-declared alias.

pub mod chat;
pub mod config;
pub mod conversation;
pub mod headers;
pub mod json;
pub mod llm_call;
pub mod llm_call_costs;
pub mod provider;
pub mod schema;
pub mod string_map;
pub mod text;
pub mod tool;
pub mod watcher;
