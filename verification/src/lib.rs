//! voice2md: the verified core of a voice-note to Markdown converter.
pub mod errors;
pub mod text;
pub mod value;
pub mod time;
pub mod typestate;
pub mod note;
pub mod formatter;
pub mod ports;
pub mod orchestrator;
pub mod access;
pub mod user_state;
pub mod bot;
pub mod bot_storage;
pub mod transcriber;
pub mod cli;
pub mod telegram;
