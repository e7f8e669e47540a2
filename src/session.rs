use vstd::prelude::*;

verus! {

/// Where the terminal stands: not yet taken, taken over (raw mode and the
/// alternate screen), or given back.
#[derive(Clone, Copy, Debug, PartialEq, Eq, Structural)]
pub enum TerminalState {
    Uninitialized,
    Active,
    Restored,
}

/// The terminal's lifecycle. It is taken at most once and given back at most
/// once, and only after it was taken.
pub struct TerminalSession {
    state: TerminalState,
}

impl View for TerminalSession {
    type V = TerminalState;

    closed spec fn view(&self) -> TerminalState {
        self.state
    }
}

impl TerminalSession {
    pub fn new() -> (r: TerminalSession)
        ensures
            r@ == TerminalState::Uninitialized,
    {
        TerminalSession { state: TerminalState::Uninitialized }
    }

    pub fn state(&self) -> (r: TerminalState)
        ensures
            r == self@,
    {
        self.state
    }

    /// Whether the terminal should be taken now: only from the first state.
    /// Call `acquired` once it has been.
    pub fn may_acquire(&self) -> (r: bool)
        ensures
            r == (self@ == TerminalState::Uninitialized),
    {
        self.state == TerminalState::Uninitialized
    }

    /// Records that the terminal was taken.
    pub fn acquired(&mut self)
        requires
            old(self)@ == TerminalState::Uninitialized,
        ensures
            final(self)@ == TerminalState::Active,
    {
        self.state = TerminalState::Active;
    }

    /// Called on every way out. Returns whether the terminal must be given
    /// back now: true exactly once, and only after it was taken.
    pub fn release(&mut self) -> (r: bool)
        ensures
            r == (old(self)@ == TerminalState::Active),
            r ==> final(self)@ == TerminalState::Restored,
            !r ==> final(self)@ == old(self)@,
    {
        if self.state == TerminalState::Active {
            self.state = TerminalState::Restored;
            true
        } else {
            false
        }
    }
}

} // verus!
