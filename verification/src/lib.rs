//! Verified core of a voice-driven chat assistant for a local language model:
//! recognising speech commands and search intents, shaping web results,
//! managing the conversation and deciding each step of a conversation turn.

pub mod text;
pub mod intent;
pub mod speech;
pub mod web;
pub mod search;
pub mod chat;
pub mod stream;
pub mod session;
pub mod view;
pub mod system;
pub mod laws;
