//! A transmission in progress: which step comes next, and when to stop.
use vstd::prelude::*;

use crate::emitter::Action;

verus! {

/// How the last step handed out ended.
#[derive(Clone, Copy, Debug, PartialEq, Eq, Structural)]
pub enum Outcome {
    /// It was carried out (or no step was handed out yet).
    Done,
    /// Driving the pin failed.
    PinFailed,
}

/// The steps of a signal, handed out one at a time until they run out or
/// the pin fails.
pub struct Transmission {
    steps: Vec<Action>,
    next: usize,
    stopped: bool,
}

impl Transmission {
    /// All the steps of the signal.
    pub closed spec fn all_steps(self) -> Seq<Action> {
        self.steps@
    }

    /// How many steps have been handed out.
    pub closed spec fn position(self) -> nat {
        self.next as nat
    }

    /// Whether the pin has failed; no step follows a failure.
    pub closed spec fn is_stopped(self) -> bool {
        self.stopped
    }

    #[verifier::type_invariant]
    closed spec fn position_in_range(self) -> bool {
        self.next <= self.steps.len()
    }

    /// A transmission of `steps` that has handed out none yet.
    pub fn new(steps: Vec<Action>) -> (r: Self)
        ensures
            r.all_steps() == steps@,
            r.position() == 0,
            !r.is_stopped(),
    {
        Transmission { steps, next: 0, stopped: false }
    }

    /// The step to perform now, given how the last one ended; `None` once
    /// the steps have run out or the pin has failed.
    pub fn advance(&mut self, last: Outcome) -> (r: Option<Action>)
        ensures
            final(self).all_steps() == old(self).all_steps(),
            final(self).is_stopped() == (old(self).is_stopped() || last == Outcome::PinFailed),
            final(self).is_stopped() ==> r is None && final(self).position() == old(
                self,
            ).position(),
            !final(self).is_stopped() ==> if old(self).position() < old(self).all_steps().len() {
                &&& r == Some(old(self).all_steps()[old(self).position() as int])
                &&& final(self).position() == old(self).position() + 1
            } else {
                &&& r is None
                &&& final(self).position() == old(self).position()
            },
    {
        proof {
            use_type_invariant(&*self);
        }
        if self.stopped || last == Outcome::PinFailed {
            self.stopped = true;
            None
        } else if self.next < self.steps.len() {
            let step = self.steps[self.next];
            self.next = self.next + 1;
            Some(step)
        } else {
            None
        }
    }
}

} // verus!
