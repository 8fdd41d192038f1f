//! What a start of the program is to do.

use crate::render::{RenderPath, render_path};
use vstd::prelude::*;
use vstd::string::*;

verus! {

/// The two ways to run.
#[derive(Debug, PartialEq, Eq)]
pub enum Launch {
    /// Answer this one input and leave.
    Directive(String),
    /// Open the interactive session.
    Interactive,
}

/// The input that the command line and the piped standard input make up.
/// Piped input is used whole; text from the command line goes before it, on a
/// line of its own. Without either there is no input.
pub open spec fn composed_input(text: Option<Seq<char>>, piped: Option<Seq<char>>) -> Option<
    Seq<char>,
> {
    match piped {
        Some(input) => match text {
            Some(text) => Some(text.push('\n') + input),
            None => Some(input),
        },
        None => text,
    }
}

/// Decides how to run: with any input as a single directive, without as an
/// interactive session. `piped` is what standard input holds when it is no
/// terminal.
pub fn launch_mode(text: Option<String>, piped: Option<String>) -> (launch: Launch)
    ensures
        match composed_input(
            match text {
                Some(t) => Some(t@),
                None => None,
            },
            match piped {
                Some(p) => Some(p@),
                None => None,
            },
        ) {
            Some(input) => launch matches Launch::Directive(given) && given@ == input,
            None => launch == Launch::Interactive,
        },
{
    match piped {
        Some(input) => match text {
            Some(text) => {
                let mut whole = text;
                whole.append("\n");
                whole.append(input.as_str());
                proof {
                    reveal_strlit("\n");
                    assert(whole@ =~= text@.push('\n') + input@);
                }
                Launch::Directive(whole)
            },
            None => Launch::Directive(input),
        },
        None => match text {
            Some(text) => Launch::Directive(text),
            None => Launch::Interactive,
        },
    }
}

/// The render path of a directive: highlighting needs both the setting and a
/// terminal to write to, and a directive is no interactive session.
pub fn directive_path(highlight: bool, is_terminal: bool) -> (path: RenderPath)
    ensures
        path == RenderPath::select(highlight && is_terminal, false),
{
    render_path(highlight && is_terminal, false)
}

} // verus!
