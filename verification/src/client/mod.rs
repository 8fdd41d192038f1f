//! The client side of a request: reading what the service sends.

pub mod json;
pub mod openai;
