//! Run/pause/step control decisions for the driving loop. The loop maps
//! physical function keys to these decisions; the decision logic itself is
//! part of the core so that pausing and single-stepping behave predictably.

use vstd::prelude::*;

verus! {

/// Why the driving loop ends a session: the user quit, or asked for a
/// fresh session with the same configuration.
#[derive(Debug, PartialEq, Eq, Clone, Copy, Structural)]
pub enum ExitStatus {
    Quit,
    Reset,
}

/// Whether the machine is free-running, and whether a single step was
/// requested while paused.
pub struct RunState {
    pub running: bool,
    pub step: bool,
}

impl RunState {
    pub fn new(running: bool, step: bool) -> (r: Self)
        ensures
            r == (RunState { running, step }),
    {
        Self { running, step }
    }

    /// Whether the interpreter should execute an instruction this tick:
    /// always while free-running, and exactly once after a step request,
    /// which is consumed here.
    pub fn should_continue(&mut self) -> (r: bool)
        ensures
            r == (old(self).step || old(self).running),
            final(self).running == old(self).running,
            final(self).step == false,
    {
        if self.step {
            self.step = false;
            return true;
        }
        self.running
    }
}

} // verus!
