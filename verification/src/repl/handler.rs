//! The handler that a streamed reply is fed into.

use crate::error::{StreamError, StreamEventKind};
use crate::render::lines::{concat_fragments, ends_with_newline};
use crate::utils::{trim, trim_end, trim_end_of, trim_of};
use vstd::prelude::*;
use vstd::string::*;

verus! {

/// The sending half of a channel of `crossbeam`. Nothing inside it is visible
/// here: it is carried around and sent through.
#[verifier::external_type_specification]
#[verifier::external_body]
#[verifier::reject_recursive_types(T)]
pub struct ExSender<T>(crossbeam::channel::Sender<T>);

/// The receiving half of a channel of `crossbeam`.
#[verifier::external_type_specification]
#[verifier::external_body]
#[verifier::reject_recursive_types(T)]
pub struct ExReceiver<T>(crossbeam::channel::Receiver<T>);

/// What a handler passes to a renderer: a piece of the reply, or its end.
#[derive(Debug, PartialEq, Eq)]
pub enum ReplyStreamEvent {
    Text(String),
    Done,
}

/// An event as plain values.
pub enum EventModel {
    Text(Seq<char>),
    Done,
}

impl View for ReplyStreamEvent {
    type V = EventModel;

    open spec fn view(&self) -> EventModel {
        match self {
            ReplyStreamEvent::Text(fragment) => EventModel::Text(fragment@),
            ReplyStreamEvent::Done => EventModel::Done,
        }
    }
}

/// What a handler holds, as plain values.
pub struct HandlerState {
    /// Every fragment handled so far, in order of arrival.
    pub buffer: Seq<char>,
    /// Text for the output stream that has not been taken yet.
    pub output: Seq<char>,
    /// The events that the channel has taken from the sender, in order.
    pub sent: Seq<EventModel>,
    /// True when fragments are passed to a renderer over a channel.
    pub formatted: bool,
    /// True inside an interactive session.
    pub repl: bool,
}

/// The newlines that end a reply written directly: one unless the reply
/// already ends in one, and one more inside an interactive session.
pub open spec fn closing_newlines(buffer: Seq<char>, repl: bool) -> Seq<char> {
    let first = if buffer.len() > 0 && buffer.last() == '\n' {
        Seq::<char>::empty()
    } else {
        seq!['\n']
    };
    if repl {
        first.push('\n')
    } else {
        first
    }
}

impl HandlerState {
    /// The state of a new handler whose channel has taken no event yet.
    pub open spec fn initial(formatted: bool, repl: bool) -> HandlerState {
        HandlerState {
            buffer: Seq::empty(),
            output: Seq::empty(),
            sent: Seq::empty(),
            formatted,
            repl,
        }
    }

    /// What a fragment does to the text that the handler keeps: the buffer
    /// always grows by it, the pending output only where there is no
    /// renderer.
    pub open spec fn accept(self, fragment: Seq<char>) -> HandlerState {
        HandlerState {
            buffer: self.buffer + fragment,
            output: if self.formatted {
                self.output
            } else {
                self.output + fragment
            },
            ..self
        }
    }

    /// What the end of the reply does to the text that the handler keeps:
    /// without a renderer the closing newlines join the pending output.
    pub open spec fn finish(self) -> HandlerState {
        HandlerState {
            output: if self.formatted {
                self.output
            } else {
                self.output + closing_newlines(self.buffer, self.repl)
            },
            ..self
        }
    }

    /// What handing an event to the channel does: with a renderer, an event
    /// that the channel took comes after those it took before. An event that
    /// it did not take leaves no trace, and without a renderer there is
    /// nothing to hand over.
    pub open spec fn hand_over(self, event: EventModel, delivered: bool) -> HandlerState {
        if self.formatted && delivered {
            HandlerState { sent: self.sent.push(event), ..self }
        } else {
            self
        }
    }

    /// The state after a fragment whose `Text` event the channel took or
    /// did not take.
    pub open spec fn after_text(self, fragment: Seq<char>, delivered: bool) -> HandlerState {
        self.accept(fragment).hand_over(EventModel::Text(fragment), delivered)
    }

    /// The state after the end of the reply, whose `Done` event the channel
    /// took or did not take.
    pub open spec fn after_done(self, delivered: bool) -> HandlerState {
        self.finish().hand_over(EventModel::Done, delivered)
    }

    /// The state after a sequence of fragments, handled first to last, all of
    /// which were delivered.
    pub open spec fn accept_all(self, fragments: Seq<Seq<char>>) -> HandlerState
        decreases fragments.len(),
    {
        if fragments.len() == 0 {
            self
        } else {
            self.accept_all(fragments.drop_last()).after_text(fragments.last(), true)
        }
    }
}

/// One `Text` event for each fragment, in the same order.
pub open spec fn text_events(fragments: Seq<Seq<char>>) -> Seq<EventModel> {
    Seq::new(fragments.len(), |i: int| EventModel::Text(fragments[i]))
}

/// What the outcome of a send means for the request.
pub open spec fn delivery_result(delivered: bool, kind: StreamEventKind) -> Result<(), StreamError> {
    if delivered {
        Ok(())
    } else {
        Err(StreamError::ChannelSend(kind))
    }
}

/// The sending half of an event channel. The only way to get one is
/// `reply_channel`, so the channel behind it is never full and sending on it
/// never waits.
pub struct ReplySender {
    inner: crossbeam::channel::Sender<ReplyStreamEvent>,
    sent: Ghost<Seq<EventModel>>,
}

/// Accumulates a reply and passes it on: to a renderer over a channel, or
/// straight to the output stream.
pub struct ReplyStreamHandler {
    sender: Option<ReplySender>,
    buffer: String,
    output: String,
    repl: bool,
}

impl View for ReplyStreamHandler {
    type V = HandlerState;

    closed spec fn view(&self) -> HandlerState {
        HandlerState {
            buffer: self.buffer@,
            output: self.output@,
            sent: match self.sender {
                Some(sender) => sender.sent(),
                None => Seq::empty(),
            },
            formatted: self.sender is Some,
            repl: self.repl,
        }
    }
}

/// Calls `crossbeam::channel::unbounded`, which makes a channel without a
/// limit on the events that wait in it. Events leave it in the order in which
/// they were sent.
#[verifier::external_body]
fn unbounded_channel() -> (halves: (
    crossbeam::channel::Sender<ReplyStreamEvent>,
    crossbeam::channel::Receiver<ReplyStreamEvent>,
)) {
    crossbeam::channel::unbounded()
}

/// A new channel for the events of one request: the sending half for the
/// handler, the receiving half for the renderer. The channel has taken no
/// event yet.
pub fn reply_channel() -> (halves: (ReplySender, crossbeam::channel::Receiver<ReplyStreamEvent>))
    ensures
        halves.0.sent() == Seq::<EventModel>::empty(),
{
    let (sender, receiver) = unbounded_channel();
    (ReplySender { inner: sender, sent: Ghost(Seq::empty()) }, receiver)
}

/// Calls `crossbeam::channel::Sender::send`. The call succeeds unless the
/// receiving half is gone, which nothing on this side decides, so nothing is
/// claimed of when it succeeds. A failed call gives the event back.
#[verifier::external_body]
fn send_event(
    sender: &crossbeam::channel::Sender<ReplyStreamEvent>,
    event: ReplyStreamEvent,
) -> (result: Result<(), ReplyStreamEvent>)
    ensures
        result matches Err(returned) ==> returned == event,
{
    sender.send(event).map_err(|e| e.0)
}

impl ReplySender {
    /// The events that the channel has taken from this sender, in order.
    pub closed spec fn sent(&self) -> Seq<EventModel> {
        self.sent@
    }

    /// Hands an event to the channel and says whether the channel took it.
    /// An event that was taken comes after all that were taken before.
    fn send(&mut self, event: ReplyStreamEvent) -> (delivered: bool)
        ensures
            final(self).sent() == if delivered {
                old(self).sent().push(event@)
            } else {
                old(self).sent()
            },
    {
        let ghost handed = event@;
        let delivered = send_event(&self.inner, event).is_ok();
        if delivered {
            proof {
                self.sent@ = self.sent@.push(handed);
            }
        }
        delivered
    }
}

/// Turns the outcome of a send into the outcome of the call that made it: an
/// event that the renderer did not take fails the request.
pub fn check_delivery(delivered: bool, kind: StreamEventKind) -> (result: Result<(), StreamError>)
    ensures
        result == delivery_result(delivered, kind),
{
    if delivered {
        Ok(())
    } else {
        Err(StreamError::ChannelSend(kind))
    }
}

impl ReplyStreamHandler {
    /// A handler with an empty buffer. With a sender it works for a renderer;
    /// without one it writes directly.
    pub fn new(sender: Option<ReplySender>, repl: bool) -> (handler: Self)
        ensures
            handler@ == (HandlerState {
                sent: match sender {
                    Some(given) => given.sent(),
                    None => Seq::empty(),
                },
                ..HandlerState::initial(sender is Some, repl)
            }),
    {
        ReplyStreamHandler { sender, buffer: String::new(), output: String::new(), repl }
    }

    /// Takes one fragment of the reply. The fragment is added to the buffer
    /// whatever happens. With a renderer it is handed to the channel as one
    /// `Text` event, and the call fails when the renderer is gone; without
    /// one the fragment is added to the pending output and the call succeeds.
    pub fn text(&mut self, text: &str) -> (result: Result<(), StreamError>)
        ensures
            final(self)@ == old(self)@.after_text(text@, result is Ok),
            !old(self)@.formatted ==> result is Ok,
            result is Err ==> result == delivery_result(false, StreamEventKind::Text),
    {
        let delivered = match &mut self.sender {
            Some(sender) => sender.send(ReplyStreamEvent::Text(String::from_str(text))),
            None => true,
        };
        self.buffer.append(text);
        if self.sender.is_none() {
            self.output.append(text);
        }
        check_delivery(delivered, StreamEventKind::Text)
    }

    /// Ends the reply. With a renderer one `Done` event is handed to the
    /// channel, and the call fails when the renderer is gone; without one
    /// the closing newlines are added to the pending output and the call
    /// succeeds.
    pub fn done(&mut self) -> (result: Result<(), StreamError>)
        ensures
            final(self)@ == old(self)@.after_done(result is Ok),
            !old(self)@.formatted ==> result is Ok,
            result is Err ==> result == delivery_result(false, StreamEventKind::Done),
    {
        let delivered = match &mut self.sender {
            Some(sender) => sender.send(ReplyStreamEvent::Done),
            None => true,
        };
        if self.sender.is_none() {
            if !ends_with_newline(self.buffer.as_str()) {
                self.output.append("\n");
            }
            if self.repl {
                self.output.append("\n");
            }
            proof {
                reveal_strlit("\n");
                assert("\n"@ =~= seq!['\n']);
                assert(self.output@ =~= old(self)@.output + closing_newlines(
                    old(self)@.buffer,
                    old(self)@.repl,
                ));
            }
        }
        check_delivery(delivered, StreamEventKind::Done)
    }

    /// The reply as accumulated so far.
    pub fn get_buffer(&self) -> (buffer: &str)
        ensures
            buffer@ == self@.buffer,
    {
        self.buffer.as_str()
    }

    /// True when the handler works for a renderer.
    pub fn is_formatted(&self) -> (formatted: bool)
        ensures
            formatted == self@.formatted,
    {
        self.sender.is_some()
    }

    /// Hands over the pending output and leaves none behind. The caller writes
    /// it to the output stream.
    pub fn take_output(&mut self) -> (output: String)
        ensures
            output@ == old(self)@.output,
            final(self)@ == (HandlerState { output: Seq::<char>::empty(), ..old(self)@ }),
    {
        let output = self.output.clone();
        self.output = String::new();
        output
    }
}

/// The buffer is the concatenation of the fragments handled, in order of
/// arrival, with or without a renderer, whether or not the renderer took
/// them, and the end of the reply does not change it.
pub proof fn lemma_buffer_is_concatenation(start: HandlerState, fragments: Seq<Seq<char>>)
    ensures
        start.accept_all(fragments).buffer == start.buffer + concat_fragments(fragments),
        forall|delivered: bool|
            (#[trigger] start.accept_all(fragments).after_done(delivered)).buffer == start.buffer
                + concat_fragments(fragments),
        start.accept_all(fragments).formatted == start.formatted,
        start.accept_all(fragments).repl == start.repl,
    decreases fragments.len(),
{
    if fragments.len() == 0 {
        assert(start.buffer + concat_fragments(fragments) =~= start.buffer);
    } else {
        lemma_buffer_is_concatenation(start, fragments.drop_last());
        assert(start.accept_all(fragments).buffer =~= start.buffer + concat_fragments(fragments));
    }
}

/// A fragment is booked in the buffer whether or not the renderer took it.
pub proof fn lemma_buffer_ignores_delivery(state: HandlerState, fragment: Seq<char>)
    ensures
        state.after_text(fragment, false).buffer == state.after_text(fragment, true).buffer,
        state.after_text(fragment, true).buffer == state.buffer + fragment,
{
}

/// Without a renderer everything handled goes to the output exactly once: the
/// pending output grows by the fragments, in order, and no event is handed
/// over.
pub proof fn lemma_direct_output(start: HandlerState, fragments: Seq<Seq<char>>)
    requires
        !start.formatted,
    ensures
        start.accept_all(fragments).output == start.output + concat_fragments(fragments),
        start.accept_all(fragments).sent == start.sent,
    decreases fragments.len(),
{
    if fragments.len() == 0 {
        assert(start.output + concat_fragments(fragments) =~= start.output);
    } else {
        lemma_buffer_is_concatenation(start, fragments.drop_last());
        lemma_direct_output(start, fragments.drop_last());
        assert(start.accept_all(fragments).output =~= start.output + concat_fragments(fragments));
    }
}

/// With a renderer the channel takes one `Text` event for each fragment, in
/// the order of the fragments, after what it held before; nothing goes to the
/// pending output. A `Done` event that is taken comes last.
pub proof fn lemma_events_in_order(start: HandlerState, fragments: Seq<Seq<char>>)
    requires
        start.formatted,
    ensures
        start.accept_all(fragments).sent == start.sent + text_events(fragments),
        start.accept_all(fragments).output == start.output,
        start.accept_all(fragments).after_done(true).sent == (start.sent + text_events(
            fragments,
        )).push(EventModel::Done),
    decreases fragments.len(),
{
    if fragments.len() == 0 {
        assert(start.sent + text_events(fragments) =~= start.sent);
    } else {
        let front = fragments.drop_last();
        lemma_buffer_is_concatenation(start, front);
        lemma_events_in_order(start, front);
        assert((start.sent + text_events(front)).push(EventModel::Text(fragments.last()))
            =~= start.sent + text_events(fragments));
    }
}

/// A command of the interactive session.
#[derive(Debug, PartialEq, Eq)]
pub enum ReplCmd {
    Submit(String),
    SetRole(String),
    UpdateConfig(String),
    Prompt(String),
    ClearRole,
    Info,
}

/// What the session has to do for a command. Every action but `Ask` and
/// `Nothing` ends with a report on the terminal.
#[derive(Debug, PartialEq, Eq)]
pub enum ReplAction {
    /// Nothing: the submission was empty.
    Nothing,
    /// Ask the service with this input and stream the reply. A reply that
    /// came whole is stored with `set_reply` and saved with the input.
    Ask(String),
    /// Switch to the role of this name and report what the switch says.
    SetRole(String),
    /// Update the configuration with this input and report what it says.
    UpdateConfig(String),
    /// Make up a role from this prompt and report an empty line.
    Prompt(String),
    /// Drop the role and report an empty line.
    ClearRole,
    /// Report the session's settings.
    Info,
}

/// The action that a command asks for. An empty submission asks for nothing.
pub open spec fn action_for(cmd: ReplCmd) -> ReplAction {
    match cmd {
        ReplCmd::Submit(input) => if input@.len() == 0 {
            ReplAction::Nothing
        } else {
            ReplAction::Ask(input)
        },
        ReplCmd::SetRole(name) => ReplAction::SetRole(name),
        ReplCmd::UpdateConfig(input) => ReplAction::UpdateConfig(input),
        ReplCmd::Prompt(prompt) => ReplAction::Prompt(prompt),
        ReplCmd::ClearRole => ReplAction::ClearRole,
        ReplCmd::Info => ReplAction::Info,
    }
}

/// The reply that is remembered after a command: an empty submission forgets
/// it, every other command leaves it.
pub open spec fn reply_after(reply: Seq<char>, cmd: ReplCmd) -> Seq<char> {
    match cmd {
        ReplCmd::Submit(input) => if input@.len() == 0 {
            Seq::<char>::empty()
        } else {
            reply
        },
        _ => reply,
    }
}

/// The report after a role switch or for the settings: the text without
/// white space at its end, and an empty line.
pub open spec fn report_of(output: Seq<char>) -> Seq<char> {
    trim_end_of(output) + seq!['\n', '\n']
}

/// The report after an update of the configuration: the text without white
/// space at either end and an empty line, or just a newline where nothing is
/// left of the text.
pub open spec fn update_report_of(output: Seq<char>) -> Seq<char> {
    if trim_of(output).len() == 0 {
        seq!['\n']
    } else {
        trim_of(output) + seq!['\n', '\n']
    }
}

/// The report after a role switch or for the settings.
pub fn report(output: &str) -> (text: String)
    ensures
        text@ == report_of(output@),
{
    let mut text = trim_end(output);
    text.append("\n\n");
    proof {
        reveal_strlit("\n\n");
        assert("\n\n"@ =~= seq!['\n', '\n']);
    }
    text
}

/// The report after an update of the configuration.
pub fn update_report(output: &str) -> (text: String)
    ensures
        text@ == update_report_of(output@),
{
    let mut text = trim(output);
    proof {
        reveal_strlit("\n\n");
        reveal_strlit("\n");
        assert("\n\n"@ =~= seq!['\n', '\n']);
        assert("\n"@ =~= seq!['\n']);
    }
    if text.as_str().unicode_len() == 0 {
        String::from_str("\n")
    } else {
        text.append("\n\n");
        text
    }
}

/// The command side of the interactive session. It remembers the last reply.
pub struct ReplCmdHandler {
    reply: String,
}

impl View for ReplCmdHandler {
    type V = Seq<char>;

    closed spec fn view(&self) -> Seq<char> {
        self.reply@
    }
}

impl ReplCmdHandler {
    /// A handler that remembers no reply.
    pub fn init() -> (handler: Self)
        ensures
            handler@ == Seq::<char>::empty(),
    {
        ReplCmdHandler { reply: String::new() }
    }

    /// Takes a command and says what the session has to do for it.
    pub fn handle(&mut self, cmd: ReplCmd) -> (action: ReplAction)
        ensures
            action == action_for(cmd),
            final(self)@ == reply_after(old(self)@, cmd),
    {
        match cmd {
            ReplCmd::Submit(input) => {
                if input.as_str().unicode_len() == 0 {
                    self.reply = String::new();
                    ReplAction::Nothing
                } else {
                    ReplAction::Ask(input)
                }
            },
            ReplCmd::SetRole(name) => ReplAction::SetRole(name),
            ReplCmd::UpdateConfig(input) => ReplAction::UpdateConfig(input),
            ReplCmd::Prompt(prompt) => ReplAction::Prompt(prompt),
            ReplCmd::ClearRole => ReplAction::ClearRole,
            ReplCmd::Info => ReplAction::Info,
        }
    }

    /// Remembers a reply that has been streamed.
    pub fn set_reply(&mut self, reply: String)
        ensures
            final(self)@ == reply@,
    {
        self.reply = reply;
    }

    /// The last reply.
    pub fn get_reply(&self) -> (reply: &str)
        ensures
            reply@ == self@,
    {
        self.reply.as_str()
    }
}

} // verus!
