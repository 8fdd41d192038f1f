//! The plain renderer: it only ever appends to the output.

use crate::render::{OutputModel, RenderOutput, StreamRenderer, render_step};
use crate::repl::handler::ReplyStreamEvent;
use vstd::prelude::*;

verus! {

/// What the plain renderer appends to the output after one event.
#[derive(Debug, PartialEq, Eq)]
pub enum PlainOutput {
    /// Completed lines, joined by newlines: they go through the stateful
    /// renderer and are printed, each followed by a newline.
    Lines(String),
    /// Nothing yet: the trailing line is held back until it is complete,
    /// because what has been printed cannot be taken back.
    Hold,
    /// The line that was still open at the end of the reply: it is rendered
    /// once, without trailing whitespace, and printed.
    Final(String),
}

/// The plain renderer's output as plain values.
pub enum PlainModel {
    Lines(Seq<char>),
    Hold,
    Final(Seq<char>),
}

impl View for PlainOutput {
    type V = PlainModel;

    open spec fn view(&self) -> PlainModel {
        match self {
            PlainOutput::Lines(committed) => PlainModel::Lines(committed@),
            PlainOutput::Hold => PlainModel::Hold,
            PlainOutput::Final(trailing) => PlainModel::Final(trailing@),
        }
    }
}

/// What of a renderer's output the plain renderer prints.
pub open spec fn plain_part(output: OutputModel) -> PlainModel {
    match output {
        OutputModel::Lines { committed, trailing } => PlainModel::Lines(committed),
        OutputModel::Trailing { trailing } => PlainModel::Hold,
        OutputModel::Final { trailing } => PlainModel::Final(trailing),
    }
}

/// One step of the plain renderer: the event changes the trailing line as it
/// does for every renderer, and only completed lines and the final line are
/// given out for printing.
pub fn render_event_plain(renderer: &mut StreamRenderer, event: ReplyStreamEvent) -> (output:
    PlainOutput)
    ensures
        output@ == plain_part(render_step(old(renderer)@, event@).0),
        final(renderer)@ == render_step(old(renderer)@, event@).1,
{
    match renderer.on_event(event) {
        RenderOutput::Lines { committed, trailing } => PlainOutput::Lines(committed),
        RenderOutput::Trailing { trailing } => PlainOutput::Hold,
        RenderOutput::Final { trailing } => PlainOutput::Final(trailing),
    }
}

} // verus!
