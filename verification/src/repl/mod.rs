//! Interactive session state: the cancellation token and the reply handler.

pub mod abort;
pub mod handler;

pub use self::abort::{AbortOp, AbortSignal, AbortState};
pub use self::handler::{
    EventModel, HandlerState, ReplAction, ReplCmd, ReplCmdHandler, ReplySender, ReplyStreamEvent,
    ReplyStreamHandler, reply_channel,
};
