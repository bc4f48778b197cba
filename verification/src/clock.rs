//! The fixed-step schedule of the physics world. Each frame, the world is
//! stepped while a step is due at the wall clock; after each step the
//! clock moves on by the step length then in force (10 ms, or one over the
//! rate the game set, which it may change during a step).
//! Times are in nanoseconds.
use vstd::prelude::*;

verus! {

/// The time of the next physics step and the length of a step.
pub struct StepClock {
    next: i64,
    length: i64,
}

impl StepClock {
    #[verifier::type_invariant]
    spec fn length_positive(self) -> bool {
        self.length > 0
    }

    /// The time of the next step.
    pub closed spec fn next_step(self) -> int {
        self.next as int
    }

    /// The length of a step.
    pub closed spec fn step_length(self) -> int {
        self.length as int
    }

    /// A clock whose first step is due at `start`, with steps of `length`.
    pub fn new(start: i64, length: i64) -> (clock: Self)
        requires
            length > 0,
        ensures
            clock.next_step() == start,
            clock.step_length() == length,
    {
        StepClock { next: start, length }
    }

    /// The length of a step.
    pub fn length(&self) -> (length: i64)
        ensures
            length == self.step_length(),
    {
        self.length
    }

    /// Sets the length of the steps to come.
    pub fn set_step_length(&mut self, length: i64)
        requires
            length > 0,
        ensures
            final(self).next_step() == old(self).next_step(),
            final(self).step_length() == length,
    {
        self.length = length;
    }

    /// The time of the next step.
    pub fn next_time(&self) -> (next: i64)
        ensures
            next == self.next_step(),
    {
        self.next
    }

    /// Whether a step is due at the time `now`: the next step's time is
    /// before `now`.
    pub fn is_due(&self, now: i64) -> (due: bool)
        ensures
            due == (self.next_step() < now),
    {
        self.next < now
    }

    /// Moves the clock on past a step that was taken, by the step length
    /// in force once the step is done.
    pub fn advance(&mut self)
        requires
            old(self).next_step() + old(self).step_length() <= i64::MAX,
        ensures
            final(self).next_step() == old(self).next_step() + old(self).step_length(),
            final(self).step_length() == old(self).step_length(),
    {
        proof {
            use_type_invariant(&*self);
        }
        self.next = self.next + self.length;
    }
}

} // verus!
