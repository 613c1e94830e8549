//! Conversation assembly, request encoding and reply decoding for a command-line chat client.

pub mod cli;
pub mod codec;
pub mod error;
pub mod exec;
pub mod json;
pub mod openai;
pub mod parse;
pub mod request;
pub mod response;

pub use error::Error;
pub use parse::parse_messages;
