//! The loop controller of a message-driven run.
//!
//! The orchestrator decides, once per elapsed interval, whether a price
//! update should be emitted, and reacts to control requests that stop,
//! restart or retarget the loop. The surrounding application owns the
//! clock and the transport; the decisions here are pure state machine.
use vstd::prelude::*;

verus! {

/// How long a run's loop should iterate.
#[derive(Clone, Copy, PartialEq, Eq, Structural, Debug)]
pub enum IterationType {
    /// A fixed number of iterations.
    Definite(usize),
    /// Iterate until told to stop.
    Indefinite,
}

/// A control request to the orchestrator.
#[derive(Clone, Copy, PartialEq, Eq, Structural, Debug)]
pub enum OrchestratorRequest {
    /// Stop emitting until restarted.
    Terminate,
    /// Resume emitting; a definite loop starts over.
    Restart,
    /// Switch the iteration mode.
    ChangeTo(IterationType),
}

/// The loop controller's state.
#[derive(Clone, Copy, PartialEq, Eq, Structural, Debug)]
pub struct Orchestrator {
    /// Interval between iterations, in scaled seconds.
    pub timesteps: u64,
    /// The type of iteration which should happen.
    pub iteration_type: IterationType,
    /// The amount of iterations passed.
    pub iterations: usize,
    /// Whether the loop is emitting.
    pub state: bool,
}

impl Orchestrator {
    /// Public constructor function for a new [`Orchestrator`].
    pub fn new(timesteps: u64, iteration_type: IterationType) -> (o: Orchestrator)
        ensures
            o.timesteps == timesteps,
            o.iteration_type == iteration_type,
            o.iterations == 0,
            o.state,
    {
        Orchestrator { timesteps, iteration_type, iterations: 0, state: true }
    }

    /// Decide whether this interval emits a price update.
    ///
    /// A stopped loop emits nothing. An indefinite loop emits every
    /// interval. A definite loop emits while its budget is not exhausted,
    /// counting each emission.
    pub fn startup(&mut self) -> (emit: bool)
        ensures
            final(self).timesteps == old(self).timesteps,
            final(self).iteration_type == old(self).iteration_type,
            final(self).state == old(self).state,
            !old(self).state ==> !emit && *final(self) == *old(self),
            old(self).state && old(self).iteration_type is Indefinite ==> emit && *final(self)
                == *old(self),
            old(self).state ==> (old(self).iteration_type matches IterationType::Definite(reps)
                ==> (emit == (reps >= old(self).iterations)) && (emit ==> final(self).iterations
                == if old(self).iterations < usize::MAX {
                old(self).iterations + 1
            } else {
                old(self).iterations as int
            }) && (!emit ==> *final(self) == *old(self))),
    {
        if !self.state {
            return false;
        }
        match self.iteration_type {
            IterationType::Indefinite => true,
            IterationType::Definite(reps) => {
                if reps >= self.iterations {
                    if self.iterations < usize::MAX {
                        self.iterations = self.iterations + 1;
                    }
                    true
                } else {
                    false
                }
            },
        }
    }

    /// React to one control request.
    pub fn process(&mut self, event: OrchestratorRequest)
        ensures
            final(self).timesteps == old(self).timesteps,
            event is Terminate ==> *final(self) == (Orchestrator { state: false, ..*old(self) }),
            event is Restart ==> final(self).state && final(self).iteration_type == old(
                self,
            ).iteration_type && (old(self).iteration_type is Definite ==> final(self).iterations
                == 0) && (old(self).iteration_type is Indefinite ==> final(self).iterations == old(
                self,
            ).iterations),
            event matches OrchestratorRequest::ChangeTo(t) ==> *final(self) == (Orchestrator {
                iteration_type: t,
                ..*old(self)
            }),
    {
        match event {
            OrchestratorRequest::Terminate => {
                self.state = false;
            },
            OrchestratorRequest::Restart => {
                match self.iteration_type {
                    IterationType::Indefinite => {
                        self.state = true;
                    },
                    IterationType::Definite(_) => {
                        self.iterations = 0;
                        self.state = true;
                    },
                }
            },
            OrchestratorRequest::ChangeTo(iteration_type) => {
                self.iteration_type = iteration_type;
            },
        }
    }
}

} // verus!
