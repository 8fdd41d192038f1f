//! Cancellation token with two independent, write-once cancel reasons.

use vstd::prelude::*;

verus! {

/// What a token holds: one flag per cancel reason.
pub struct AbortState {
    pub ctrlc: bool,
    pub ctrld: bool,
}

/// An operation that can be applied to a token. There is none that clears a flag.
pub enum AbortOp {
    SetCtrlC,
    SetCtrlD,
}

impl AbortState {
    /// The state of a fresh token.
    pub open spec fn initial() -> AbortState {
        AbortState { ctrlc: false, ctrld: false }
    }

    /// True when either reason has been recorded.
    pub open spec fn aborted(self) -> bool {
        self.ctrlc || self.ctrld
    }

    /// The state after one operation.
    pub open spec fn apply(self, op: AbortOp) -> AbortState {
        match op {
            AbortOp::SetCtrlC => AbortState { ctrlc: true, ctrld: self.ctrld },
            AbortOp::SetCtrlD => AbortState { ctrlc: self.ctrlc, ctrld: true },
        }
    }

    /// The state after a sequence of operations, applied first to last.
    pub open spec fn apply_all(self, ops: Seq<AbortOp>) -> AbortState
        decreases ops.len(),
    {
        if ops.len() == 0 {
            self
        } else {
            self.apply_all(ops.drop_last()).apply(ops.last())
        }
    }
}

/// Cancellation token. Both flags start cleared and can only ever be set.
pub struct AbortSignal {
    ctrlc: bool,
    ctrld: bool,
}

impl View for AbortSignal {
    type V = AbortState;

    closed spec fn view(&self) -> AbortState {
        AbortState { ctrlc: self.ctrlc, ctrld: self.ctrld }
    }
}

impl AbortSignal {
    /// A token with both flags cleared.
    pub fn new() -> (signal: Self)
        ensures
            signal@ == AbortState::initial(),
    {
        AbortSignal { ctrlc: false, ctrld: false }
    }

    /// True when either flag is set.
    pub fn aborted(&self) -> (b: bool)
        ensures
            b == self@.aborted(),
    {
        self.ctrlc || self.ctrld
    }

    /// True when the interrupt flag is set.
    pub fn aborted_ctrlc(&self) -> (b: bool)
        ensures
            b == self@.ctrlc,
    {
        self.ctrlc
    }

    /// True when the end-of-input flag is set.
    pub fn aborted_ctrld(&self) -> (b: bool)
        ensures
            b == self@.ctrld,
    {
        self.ctrld
    }

    /// Sets the interrupt flag. Setting it again changes nothing.
    pub fn set_ctrlc(&mut self)
        ensures
            final(self)@ == old(self)@.apply(AbortOp::SetCtrlC),
    {
        self.ctrlc = true;
    }

    /// Sets the end-of-input flag. Setting it again changes nothing.
    pub fn set_ctrld(&mut self)
        ensures
            final(self)@ == old(self)@.apply(AbortOp::SetCtrlD),
    {
        self.ctrld = true;
    }
}

/// Setting a flag is idempotent: a second application leaves the state as the
/// first one made it.
pub proof fn lemma_set_idempotent(state: AbortState, op: AbortOp)
    ensures
        state.apply(op).apply(op) == state.apply(op),
{
}

/// The token is monotonic. Whatever operations follow, a flag that is set stays
/// set, and a token that reports an abort keeps reporting it.
pub proof fn lemma_abort_monotonic(state: AbortState, ops: Seq<AbortOp>)
    ensures
        state.ctrlc ==> state.apply_all(ops).ctrlc,
        state.ctrld ==> state.apply_all(ops).ctrld,
        state.aborted() ==> state.apply_all(ops).aborted(),
    decreases ops.len(),
{
    if ops.len() > 0 {
        lemma_abort_monotonic(state, ops.drop_last());
    }
}

/// Once an operation has been applied the token reports an abort, and keeps
/// doing so after any further operations.
pub proof fn lemma_aborted_after_set(state: AbortState, op: AbortOp, later: Seq<AbortOp>)
    ensures
        state.apply(op).aborted(),
        state.apply(op).apply_all(later).aborted(),
{
    lemma_abort_monotonic(state.apply(op), later);
}

} // verus!
