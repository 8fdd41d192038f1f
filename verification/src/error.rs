//! Failures of a streamed request.

use vstd::prelude::*;
use vstd::string::*;

verus! {

/// The two kinds of event that travel from the handler to a renderer.
#[derive(Debug, Clone, Copy, PartialEq, Eq)]
pub enum StreamEventKind {
    Text,
    Done,
}

/// Why a streamed request failed.
#[derive(Debug, PartialEq, Eq)]
pub enum StreamError {
    /// The remote service answered with an error of its own; the message is
    /// passed on as it came.
    Api(String),
    /// A payload of the stream could not be read, or the transport failed.
    Transport(String),
    /// The renderer had already gone when an event of this kind was sent.
    ChannelSend(StreamEventKind),
}

impl StreamError {
    /// The text of `message`.
    pub open spec fn spec_message(&self) -> Seq<char> {
        match self {
            StreamError::Api(message) => message@,
            StreamError::Transport(details) => details@,
            StreamError::ChannelSend(StreamEventKind::Text) => "Failed to send StreamEvent:Text"@,
            StreamError::ChannelSend(StreamEventKind::Done) => "Failed to send StreamEvent:Done"@,
        }
    }

    /// The line to show to the user.
    pub fn message(&self) -> (text: String)
        ensures
            text@ == self.spec_message(),
    {
        match self {
            StreamError::Api(message) => message.clone(),
            StreamError::Transport(details) => details.clone(),
            StreamError::ChannelSend(StreamEventKind::Text) => String::from_str(
                "Failed to send StreamEvent:Text",
            ),
            StreamError::ChannelSend(StreamEventKind::Done) => String::from_str(
                "Failed to send StreamEvent:Done",
            ),
        }
    }
}

} // verus!
