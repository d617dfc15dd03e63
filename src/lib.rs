//! Conversation orchestration for a tool-using terminal assistant.
pub mod text;
pub mod message;
pub mod tools;
pub mod plugins;
pub mod context;
pub mod roles;
pub mod transactions;
pub mod config;
pub mod stream;
pub mod json;
pub mod engine;
pub mod megamind;
pub mod markdown;
pub mod events;
pub mod display;
