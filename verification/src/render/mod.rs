//! Renderer logic: which path a request takes, and the line bookkeeping that
//! both renderers share.

pub mod cmd;
pub mod lines;
pub mod repl;

use crate::render::lines::{
    committed_text, concat_fragments, lemma_last_newline, lemma_last_newline_concat,
    lemma_split_rejoins, lemma_trailing_of_concat, split_trailing, trailing_text,
};
use crate::error::StreamError;
use crate::repl::abort::AbortSignal;
use crate::repl::handler::{EventModel, ReplyStreamEvent, ReplyStreamHandler};
use vstd::prelude::*;
use vstd::string::*;

verus! {

/// How the reply of one request reaches the terminal.
#[derive(Debug, Clone, Copy, PartialEq, Eq)]
pub enum RenderPath {
    /// No renderer: the handler writes each fragment as it comes.
    Direct,
    /// A renderer that only appends completed lines.
    Plain,
    /// A renderer that redraws the trailing line in place and watches the keys.
    Interactive,
}

impl RenderPath {
    /// The path for the given settings.
    pub open spec fn select(highlight: bool, repl: bool) -> RenderPath {
        if !highlight {
            RenderPath::Direct
        } else if repl {
            RenderPath::Interactive
        } else {
            RenderPath::Plain
        }
    }

    /// True when the path runs a renderer beside the request, which is then
    /// fed over a channel and has to be waited for.
    pub open spec fn spec_has_renderer(self) -> bool {
        self != RenderPath::Direct
    }

    /// True when the path runs a renderer beside the request.
    #[verifier::when_used_as_spec(spec_has_renderer)]
    pub fn has_renderer(self) -> (b: bool)
        ensures
            b == self.spec_has_renderer(),
    {
        match self {
            RenderPath::Direct => false,
            RenderPath::Plain => true,
            RenderPath::Interactive => true,
        }
    }
}

/// Chooses the path of a request: without highlighting there is no renderer;
/// with it, an interactive session gets the interactive renderer and a single
/// command the plain one.
pub fn render_path(highlight: bool, repl: bool) -> (path: RenderPath)
    ensures
        path == RenderPath::select(highlight, repl),
{
    if !highlight {
        RenderPath::Direct
    } else if repl {
        RenderPath::Interactive
    } else {
        RenderPath::Plain
    }
}

/// What a renderer has to show after one event.
#[derive(Debug, PartialEq, Eq)]
pub enum RenderOutput {
    /// Lines were completed. `committed` holds them, joined by newlines, for
    /// the stateful renderer; `trailing` is the new trailing line.
    Lines { committed: String, trailing: String },
    /// No line was completed; `trailing` is the trailing line as grown.
    Trailing { trailing: String },
    /// The reply is over; `trailing` is the line that was still open.
    Final { trailing: String },
}

impl RenderOutput {
    /// True for the output that ends a reply.
    pub open spec fn spec_is_final(&self) -> bool {
        self is Final
    }

    /// True for the output that ends a reply: once it is shown the renderer
    /// is done.
    #[verifier::when_used_as_spec(spec_is_final)]
    pub fn is_final(&self) -> (last: bool)
        ensures
            last == self.spec_is_final(),
    {
        match self {
            RenderOutput::Final { trailing } => true,
            _ => false,
        }
    }
}

/// What a renderer does next in its loop.
#[derive(Debug, PartialEq, Eq)]
pub enum LoopAction {
    /// Leave the loop: the request has been aborted.
    Stop,
    /// Render this event.
    Render(ReplyStreamEvent),
    /// There is nothing to render: wait, and look again.
    Idle,
}

/// What a renderer does next, given the token of the request and what the
/// channel gave. A token that is set stops the renderer at once, and an
/// event that came with it is not rendered.
pub open spec fn loop_action(aborted: bool, received: Option<ReplyStreamEvent>) -> LoopAction {
    if aborted {
        LoopAction::Stop
    } else {
        match received {
            Some(event) => LoopAction::Render(event),
            None => LoopAction::Idle,
        }
    }
}

/// The first decision of every turn of a renderer's loop: stop where the
/// request has been aborted, render the event that the channel gave, or wait
/// where it gave none.
pub fn next_action(abort: &AbortSignal, received: Option<ReplyStreamEvent>) -> (action: LoopAction)
    ensures
        action == loop_action(abort@.aborted(), received),
{
    if abort.aborted() {
        LoopAction::Stop
    } else {
        match received {
            Some(event) => LoopAction::Render(event),
            None => LoopAction::Idle,
        }
    }
}

/// A renderer's output as plain values.
pub enum OutputModel {
    Lines { committed: Seq<char>, trailing: Seq<char> },
    Trailing { trailing: Seq<char> },
    Final { trailing: Seq<char> },
}

impl View for RenderOutput {
    type V = OutputModel;

    open spec fn view(&self) -> OutputModel {
        match self {
            RenderOutput::Lines { committed, trailing } => OutputModel::Lines {
                committed: committed@,
                trailing: trailing@,
            },
            RenderOutput::Trailing { trailing } => OutputModel::Trailing { trailing: trailing@ },
            RenderOutput::Final { trailing } => OutputModel::Final { trailing: trailing@ },
        }
    }
}

/// What one event does to the trailing line and what it gives to show.
///
/// A fragment with a newline completes lines: everything up to the last
/// newline of the trailing line plus the fragment is committed, the rest is
/// the new trailing line. A fragment without one only makes the trailing
/// line longer. The end of the reply hands out the trailing line and leaves
/// none.
pub open spec fn render_step(trailing: Seq<char>, event: EventModel) -> (OutputModel, Seq<char>) {
    match event {
        EventModel::Text(fragment) => {
            let text = trailing + fragment;
            if fragment.contains('\n') {
                (
                    OutputModel::Lines {
                        committed: committed_text(text),
                        trailing: trailing_text(text),
                    },
                    trailing_text(text),
                )
            } else {
                (OutputModel::Trailing { trailing: text }, text)
            }
        },
        EventModel::Done => (OutputModel::Final { trailing }, Seq::<char>::empty()),
    }
}

/// The trailing line after a sequence of fragments, taken first to last.
pub open spec fn trailing_after(start: Seq<char>, fragments: Seq<Seq<char>>) -> Seq<char>
    decreases fragments.len(),
{
    if fragments.len() == 0 {
        start
    } else {
        render_step(
            trailing_after(start, fragments.drop_last()),
            EventModel::Text(fragments.last()),
        ).1
    }
}

/// What a sequence of fragments, taken first to last, has committed: every
/// completed line, each with its newline.
pub open spec fn committed_after(start: Seq<char>, fragments: Seq<Seq<char>>) -> Seq<char>
    decreases fragments.len(),
{
    if fragments.len() == 0 {
        Seq::<char>::empty()
    } else {
        let before = committed_after(start, fragments.drop_last());
        let step = render_step(
            trailing_after(start, fragments.drop_last()),
            EventModel::Text(fragments.last()),
        );
        match step.0 {
            OutputModel::Lines { committed, trailing } => before + committed.push('\n'),
            _ => before,
        }
    }
}

/// The line bookkeeping of a renderer: the trailing line, which is the part of
/// the reply that no newline has completed yet. It never holds a newline.
pub struct StreamRenderer {
    buffer: String,
}

impl View for StreamRenderer {
    type V = Seq<char>;

    closed spec fn view(&self) -> Seq<char> {
        self.buffer@
    }
}

impl StreamRenderer {
    #[verifier::type_invariant]
    spec fn single_line(self) -> bool {
        !self.buffer@.contains('\n')
    }

    /// A renderer with an empty trailing line.
    pub fn new() -> (renderer: Self)
        ensures
            renderer@ == Seq::<char>::empty(),
    {
        let renderer = StreamRenderer { buffer: String::new() };
        renderer
    }

    /// The trailing line.
    pub fn trailing(&self) -> (trailing: &str)
        ensures
            trailing@ == self@,
            !self@.contains('\n'),
    {
        proof {
            use_type_invariant(self);
        }
        self.buffer.as_str()
    }

    /// Takes one event and says what to show for it.
    pub fn on_event(&mut self, event: ReplyStreamEvent) -> (output: RenderOutput)
        ensures
            (output@, final(self)@) == render_step(old(self)@, event@),
            !final(self)@.contains('\n'),
    {
        proof {
            use_type_invariant(&*self);
        }
        match event {
            ReplyStreamEvent::Text(fragment) => {
                let mut text = self.buffer.clone();
                text.append(fragment.as_str());
                proof {
                    lemma_last_newline(fragment@);
                    lemma_last_newline(self.buffer@);
                    lemma_last_newline(text@);
                    lemma_last_newline_concat(self.buffer@, fragment@);
                    lemma_split_rejoins(text@);
                }
                let parts = split_trailing(text.as_str());
                match parts.0 {
                    Some(committed) => {
                        self.buffer = parts.1.clone();
                        RenderOutput::Lines { committed, trailing: parts.1 }
                    },
                    None => {
                        self.buffer = text.clone();
                        RenderOutput::Trailing { trailing: text }
                    },
                }
            },
            ReplyStreamEvent::Done => {
                let trailing = self.buffer.clone();
                self.buffer = String::new();
                RenderOutput::Final { trailing }
            },
        }
    }
}

/// The trailing line does not depend on how the reply was cut into fragments:
/// it is what follows the last newline of everything received.
pub proof fn lemma_trailing_is_tail(start: Seq<char>, fragments: Seq<Seq<char>>)
    requires
        !start.contains('\n'),
    ensures
        trailing_after(start, fragments) == trailing_text(start + concat_fragments(fragments)),
        !trailing_after(start, fragments).contains('\n'),
    decreases fragments.len(),
{
    lemma_last_newline(start);
    if fragments.len() == 0 {
        assert(start + concat_fragments(fragments) =~= start);
        lemma_split_rejoins(start);
    } else {
        let front = fragments.drop_last();
        let fragment = fragments.last();
        let before = trailing_after(start, front);
        let received = start + concat_fragments(front);
        lemma_trailing_is_tail(start, front);
        lemma_trailing_of_concat(received, fragment);
        assert(received + fragment =~= start + concat_fragments(fragments));
        lemma_split_rejoins(before + fragment);
        lemma_last_newline(before);
        lemma_last_newline(fragment);
        lemma_last_newline(before + fragment);
        lemma_last_newline_concat(before, fragment);
    }
}

/// A renderer loses nothing and shows nothing twice: what it has committed,
/// followed by its trailing line, is the line it started with followed by
/// all fragments.
pub proof fn lemma_render_loses_nothing(start: Seq<char>, fragments: Seq<Seq<char>>)
    requires
        !start.contains('\n'),
    ensures
        committed_after(start, fragments) + trailing_after(start, fragments) == start
            + concat_fragments(fragments),
    decreases fragments.len(),
{
    if fragments.len() == 0 {
        assert(committed_after(start, fragments) + trailing_after(start, fragments) =~= start
            + concat_fragments(fragments));
    } else {
        let front = fragments.drop_last();
        let fragment = fragments.last();
        let before = committed_after(start, front);
        let trailing = trailing_after(start, front);
        let text = trailing + fragment;
        lemma_render_loses_nothing(start, front);
        lemma_trailing_is_tail(start, front);
        lemma_last_newline(fragment);
        lemma_last_newline(trailing);
        lemma_last_newline(text);
        lemma_last_newline_concat(trailing, fragment);
        lemma_split_rejoins(text);
        if fragment.contains('\n') {
            assert(before + committed_text(text).push('\n') + trailing_text(text) =~= (before
                + trailing) + fragment);
        } else {
            assert(before + text =~= (before + trailing) + fragment);
        }
        assert((start + concat_fragments(front)) + fragment =~= start + concat_fragments(
            fragments,
        ));
    }
}

/// What a request hands back once the stream has ended and the renderer, if
/// there was one, has finished: the accumulated reply when the stream ended
/// well, the failure otherwise.
pub fn stream_result(handler: &ReplyStreamHandler, outcome: Result<(), StreamError>) -> (result:
    Result<String, StreamError>)
    ensures
        match outcome {
            Ok(()) => result matches Ok(reply) && reply@ == handler@.buffer,
            Err(error) => result == Err::<String, StreamError>(error),
        },
{
    match outcome {
        Ok(()) => Ok(String::from_str(handler.get_buffer())),
        Err(error) => Err(error),
    }
}

} // verus!
