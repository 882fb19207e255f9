//! Conversation sessions for a local assistant: a conversation store, a
//! cache-aside session layer over it, and the decisions that drive a native
//! language model from a conversation to a reply.
pub mod engine;
pub mod error;
pub mod huggingface;
pub mod manager;
pub mod model_manager;
pub mod models;
pub mod prompt;
pub mod protocol;
pub mod repository;
pub mod session;
pub mod settings;
mod stamp;
pub mod text;
