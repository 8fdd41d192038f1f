//! Conversation data.

pub mod message;

pub use self::message::{Message, MessageRole, num_tokens_from_messages};
