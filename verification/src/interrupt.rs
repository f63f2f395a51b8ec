//! What an interrupt from outside means for the program: a graceful
//! shutdown of the server, or the end of the program at once.

use vstd::prelude::*;

verus! {

/// The status that the program ends with when it is interrupted and does
/// not shut down gracefully.
pub const EXIT_INTERRUPTED: i32 = 2;

/// The status that the program ends with after a fault.
pub const EXIT_FAULT: i32 = 1;

/// What the program knows of interrupts.
#[derive(Debug, Clone, Copy, PartialEq, Eq, Structural)]
pub struct InterruptState {
    /// Whether an interrupt has arrived.
    pub interrupted: bool,
    /// Whether an interrupt is taken as the wish to shut down gracefully.
    pub catching: bool,
}

/// What to do when an interrupt arrives.
#[derive(Debug, Clone, Copy, PartialEq, Eq, Structural)]
pub enum InterruptAction {
    /// End the program at once, with the status `EXIT_INTERRUPTED`.
    Exit,
    /// Let the run end by itself: it looks at the interrupt flag.
    ShutDown,
}

impl InterruptState {
    /// The state at the start of the program: no interrupt has arrived, and
    /// one that arrives ends the program.
    pub fn new() -> (r: InterruptState)
        ensures
            r == (InterruptState { interrupted: false, catching: false }),
    {
        InterruptState { interrupted: false, catching: false }
    }

    /// From now on the first interrupt is taken as the wish to shut down
    /// gracefully.
    pub fn catch(&mut self)
        ensures
            *final(self) == (InterruptState { catching: true, ..*old(self) }),
    {
        self.catching = true;
    }

    /// What an interrupt makes of the state, and what to do.
    pub open spec fn spec_interrupt(self) -> (InterruptState, InterruptAction) {
        if !self.catching {
            (self, InterruptAction::Exit)
        } else if self.interrupted {
            (self, InterruptAction::Exit)
        } else {
            (InterruptState { interrupted: true, ..self }, InterruptAction::ShutDown)
        }
    }

    /// Takes an interrupt. The first one that arrives while interrupts are
    /// caught is recorded, and the server is shut down gracefully. A second
    /// one, or one that is not caught, ends the program at once.
    pub fn interrupt(&mut self) -> (r: InterruptAction)
        ensures
            (*final(self), r) == old(self).spec_interrupt(),
    {
        if !self.catching {
            InterruptAction::Exit
        } else if self.interrupted {
            InterruptAction::Exit
        } else {
            self.interrupted = true;
            InterruptAction::ShutDown
        }
    }
}

/// Of two interrupts in a row, the second ends the program at once.
pub proof fn lemma_second_interrupt_exits(state: InterruptState)
    ensures
        state.spec_interrupt().0.spec_interrupt().1 == InterruptAction::Exit,
{
}

/// An interrupt is only ever answered with a graceful shutdown while
/// interrupts are caught, and is recorded then.
pub proof fn lemma_shutdown_is_caught(state: InterruptState)
    requires
        state.spec_interrupt().1 == InterruptAction::ShutDown,
    ensures
        state.catching,
        !state.interrupted,
        state.spec_interrupt().0.interrupted,
{
}

} // verus!
