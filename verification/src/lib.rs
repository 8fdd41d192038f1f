//! Streaming render pipeline of a terminal chat client.
//!
//! A reply arrives as a sequence of text fragments. The modules here hold the
//! rules that turn that sequence into terminal output: the cancellation token,
//! the handler that accumulates the reply, the line bookkeeping of the
//! renderers, the cursor arithmetic, and the decoding of the event stream.
//! Terminal, network and thread handling are left to the caller, which feeds
//! these functions plain values and carries out what they return.

pub mod client;
pub mod config;
pub mod error;
pub mod launch;
pub mod render;
pub mod repl;
pub mod utils;
