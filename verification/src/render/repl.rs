//! The interactive renderer: cursor recovery, key chords and the poll tick.

use crate::render::{RenderOutput, StreamRenderer, render_step};
use crate::repl::abort::{AbortOp, AbortSignal};
use crate::repl::handler::ReplyStreamEvent;
use unicode_width::UnicodeWidthStr;
use vstd::prelude::*;

verus! {

/// The number of terminal columns that a string takes when displayed, as
/// `unicode_width` counts them.
pub uninterp spec fn display_width(text: Seq<char>) -> nat;

/// Calls `UnicodeWidthStr::width` of `unicode_width`. The result is the
/// string's display width, which depends on the string alone; the empty
/// string has width 0.
#[verifier::external_body]
fn measure_width(text: &str) -> (width: usize)
    ensures
        width == display_width(text@),
        text@.len() == 0 ==> width == 0,
{
    text.width()
}

/// The most lines that the terminal can be asked to scroll by at once.
pub const MAX_SCROLL: u16 = 0xffff;

/// The period of the renderer's loop, in nanoseconds.
pub const TICK_RATE_NANOS: u64 = 100_000_000;

/// The bit of the control key in a key event's modifiers.
pub const MODIFIER_CONTROL: u8 = 0x02;

/// The number of terminal rows that a line of the given width takes when it
/// wraps at `columns`.
pub open spec fn wrapped_rows(width: nat, columns: nat) -> nat
    recommends
        columns > 0,
{
    ((width + columns - 1) / (columns as int)) as nat
}

/// True when `rows` rows of `columns` cells hold `width` cells.
pub open spec fn rows_hold(rows: nat, columns: nat, width: nat) -> bool {
    rows * columns >= width
}

/// The wrapped-row count is the ceiling of width over columns: the least
/// number of rows of `columns` cells that hold `width` cells.
pub proof fn lemma_wrapped_rows_is_ceiling(width: nat, columns: nat)
    requires
        columns > 0,
    ensures
        rows_hold(wrapped_rows(width, columns), columns, width),
        forall|rows: nat| #[trigger]
            rows_hold(rows, columns, width) ==> wrapped_rows(width, columns) <= rows,
        width == 0 <==> wrapped_rows(width, columns) == 0,
        wrapped_rows(width, columns) <= width,
{
    let w = width as int;
    let c = columns as int;
    let r = (w + c - 1) / c;
    assert(r * c >= w && r * c < w + c && r >= 0) by (nonlinear_arith)
        requires
            c > 0,
            w >= 0,
            r == (w + c - 1) / c,
    ;
    assert(r <= w) by (nonlinear_arith)
        requires
            c > 0,
            w >= 0,
            r >= 0,
            r * c < w + c,
    ;
    assert forall|rows: nat| #[trigger] rows_hold(rows, columns, width) implies wrapped_rows(
        width,
        columns,
    ) <= rows by {
        let n = rows as int;
        assert(r <= n) by (nonlinear_arith)
            requires
                c > 0,
                n >= 0,
                n * c >= w,
                r * c < w + c,
        ;
    }
    if w > 0 {
        assert(r > 0) by (nonlinear_arith)
            requires
                r * c >= w,
                w > 0,
                c > 0,
        ;
    }
}

/// Where the cursor goes before the trailing line is drawn again.
#[derive(Debug, Clone, Copy, PartialEq, Eq)]
pub enum CursorMove {
    /// To column 0 of the given row.
    To { row: u16 },
    /// The line began above the top of the screen: scroll up by `lines`, then
    /// go to column 0 of row 0.
    ScrollThenTop { lines: usize },
}

/// The move that brings the cursor to the start of a trailing line of `rows`
/// rows whose last row is `row`.
///
/// A line of no rows leaves the row as it is. Otherwise the line began
/// `rows - 1` rows above; where that lies above the top, the terminal is
/// scrolled by what is missing.
pub open spec fn cursor_target(rows: nat, row: nat) -> CursorMove {
    if rows == 0 {
        CursorMove::To { row: row as u16 }
    } else if row + 1 >= rows {
        CursorMove::To { row: (row + 1 - rows) as u16 }
    } else {
        CursorMove::ScrollThenTop { lines: (rows - 1 - row) as usize }
    }
}

/// The cursor move for a trailing line of the given display width.
pub open spec fn recovery_for(width: nat, columns: nat, row: nat) -> CursorMove {
    cursor_target(wrapped_rows(width, columns), row)
}

/// The number of rows that a line of `width` columns takes in a terminal of
/// `columns` columns.
pub fn buffer_rows(width: usize, columns: u16) -> (rows: usize)
    requires
        columns > 0,
    ensures
        rows == wrapped_rows(width as nat, columns as nat),
{
    let wide: usize = columns as usize;
    let full: usize = width / wide;
    let rest: usize = width % wide;
    proof {
        let w = width as int;
        let c = wide as int;
        assert(w == c * (w / c) + (w % c) && 0 <= w % c < c) by (nonlinear_arith)
            requires
                c > 0,
                w >= 0,
        ;
        if w % c == 0 {
            assert((w + c - 1) / c == w / c) by (nonlinear_arith)
                requires
                    c > 0,
                    w >= 0,
                    w == c * (w / c),
            ;
        } else {
            assert((w + c - 1) / c == w / c + 1) by (nonlinear_arith)
                requires
                    c > 0,
                    w >= 0,
                    w == c * (w / c) + (w % c),
                    0 < w % c < c,
            ;
            assert(w / c < w) by (nonlinear_arith)
                requires
                    c > 0,
                    w >= 0,
                    w == c * (w / c) + (w % c),
                    0 < w % c,
            ;
        }
    }
    if rest == 0 {
        full
    } else {
        full + 1
    }
}

/// The cursor move for a trailing line of the given display width, with the
/// cursor in `row` of a terminal that is `columns` wide.
pub fn cursor_recovery(width: usize, columns: u16, row: u16) -> (target: CursorMove)
    requires
        columns > 0,
    ensures
        target == recovery_for(width as nat, columns as nat, row as nat),
        width == 0 ==> target == (CursorMove::To { row }),
{
    let rows: usize = buffer_rows(width, columns);
    let at: usize = row as usize;
    proof {
        lemma_wrapped_rows_is_ceiling(width as nat, columns as nat);
    }
    if rows == 0 {
        CursorMove::To { row }
    } else if at >= rows - 1 {
        CursorMove::To { row: (at - (rows - 1)) as u16 }
    } else {
        CursorMove::ScrollThenTop { lines: rows - 1 - at }
    }
}

/// How far to scroll next when `lines` lines are still to be scrolled: all of
/// them, or as many as one scroll takes.
pub fn scroll_step(lines: usize) -> (step: u16)
    ensures
        step == if lines > MAX_SCROLL {
            MAX_SCROLL as int
        } else {
            lines as int
        },
{
    if lines > MAX_SCROLL as usize {
        MAX_SCROLL
    } else {
        lines as u16
    }
}

/// Where to put the cursor so that the trailing line `buffer` can be drawn
/// over: the start of the first row that the line takes on the screen.
pub fn recover_cursor(buffer: &str, columns: u16, row: u16) -> (target: CursorMove)
    requires
        columns > 0,
    ensures
        target == recovery_for(display_width(buffer@), columns as nat, row as nat),
        buffer@.len() == 0 ==> target == (CursorMove::To { row }),
{
    cursor_recovery(measure_width(buffer), columns, row)
}

/// What one event asks of the terminal: first the cursor move, then the output.
#[derive(Debug, PartialEq, Eq)]
pub struct Frame {
    pub cursor: CursorMove,
    pub output: RenderOutput,
}

/// One step of the interactive renderer. The cursor goes back to the start of
/// the trailing line as it stood before the event; the event then changes the
/// trailing line as it does for every renderer.
pub fn render_event(
    renderer: &mut StreamRenderer,
    event: ReplyStreamEvent,
    columns: u16,
    row: u16,
) -> (frame: Frame)
    requires
        columns > 0,
    ensures
        frame.cursor == recovery_for(display_width(old(renderer)@), columns as nat, row as nat),
        old(renderer)@.len() == 0 ==> frame.cursor == (CursorMove::To { row }),
        (frame.output@, final(renderer)@) == render_step(old(renderer)@, event@),
{
    let cursor = recover_cursor(renderer.trailing(), columns, row);
    let output = renderer.on_event(event);
    Frame { cursor, output }
}

/// A key event as the renderer sees it.
#[derive(Debug, Clone, Copy, PartialEq, Eq)]
pub struct KeyPress {
    /// The character of a character key; `None` for every other key.
    pub character: Option<char>,
    /// The modifier keys held, one bit each.
    pub modifiers: u8,
}

/// What a key event means to the renderer.
#[derive(Debug, Clone, Copy, PartialEq, Eq)]
pub enum KeyAction {
    /// Control-C: interrupt.
    Interrupt,
    /// Control-D: end of input.
    EndOfInput,
    /// Any other key.
    Ignore,
}

/// The meaning of a key event: `c` or `d` with the control key, and no other
/// modifier, aborts; everything else is ignored.
pub open spec fn key_action(key: KeyPress) -> KeyAction {
    if key.modifiers != MODIFIER_CONTROL {
        KeyAction::Ignore
    } else if key.character == Some('c') {
        KeyAction::Interrupt
    } else if key.character == Some('d') {
        KeyAction::EndOfInput
    } else {
        KeyAction::Ignore
    }
}

/// Tells the two abort chords from all other keys.
pub fn classify_key(key: KeyPress) -> (action: KeyAction)
    ensures
        action == key_action(key),
{
    if key.modifiers != MODIFIER_CONTROL {
        return KeyAction::Ignore;
    }
    match key.character {
        Some(c) => {
            if c == 'c' {
                KeyAction::Interrupt
            } else if c == 'd' {
                KeyAction::EndOfInput
            } else {
                KeyAction::Ignore
            }
        },
        None => KeyAction::Ignore,
    }
}

/// Handles a key event: an abort chord sets its flag in `abort` and the
/// renderer is to stop; any other key changes nothing.
pub fn on_key(key: KeyPress, abort: &mut AbortSignal) -> (stop: bool)
    ensures
        stop == (key_action(key) != KeyAction::Ignore),
        final(abort)@ == match key_action(key) {
            KeyAction::Interrupt => old(abort)@.apply(AbortOp::SetCtrlC),
            KeyAction::EndOfInput => old(abort)@.apply(AbortOp::SetCtrlD),
            KeyAction::Ignore => old(abort)@,
        },
        stop ==> final(abort)@.aborted(),
{
    match classify_key(key) {
        KeyAction::Interrupt => {
            abort.set_ctrlc();
            true
        },
        KeyAction::EndOfInput => {
            abort.set_ctrld();
            true
        },
        KeyAction::Ignore => false,
    }
}

/// How long to wait for a key: what is left of the tick, and no time at all
/// once the tick is over.
pub fn poll_timeout(elapsed_nanos: u128) -> (timeout_nanos: u64)
    ensures
        timeout_nanos == if elapsed_nanos >= TICK_RATE_NANOS {
            0
        } else {
            TICK_RATE_NANOS - elapsed_nanos
        },
{
    if elapsed_nanos >= TICK_RATE_NANOS as u128 {
        0
    } else {
        TICK_RATE_NANOS - (elapsed_nanos as u64)
    }
}

/// True when a full tick has passed, so that the next one begins.
pub fn tick_expired(elapsed_nanos: u128) -> (expired: bool)
    ensures
        expired == (elapsed_nanos >= TICK_RATE_NANOS),
{
    elapsed_nanos >= TICK_RATE_NANOS as u128
}

} // verus!
