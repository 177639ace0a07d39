//! The watch loop of one module, as a machine that decides what happens next.
//!
//! The machine does no work of its own. It is told what happened (a save settled,
//! a test run came back), and answers with what the learner is to be told and with
//! the one piece of work to do before it is asked again.

use crate::progress::{Exercise, MultiExerciseState, StepOutcome, TestOutcome, step_outcome};
use crate::watch::Debouncer;
use vstd::prelude::*;

verus! {

/// What the loop is waiting for.
#[derive(Clone, Copy, Debug, PartialEq, Eq, Structural)]
pub enum Phase {
    /// A test run that shows whether the current exercise was solved earlier.
    CatchingUp,
    /// A save that settles.
    Waiting,
    /// The test run for a settled save.
    Testing,
    /// Nothing: the loop is over.
    Finished,
}

/// What happened outside. A test run that could not be carried out has no outcome.
#[derive(Debug)]
pub enum Event {
    /// The test run asked for by `Next::CatchUp` is over.
    CaughtUp(Option<TestOutcome>),
    /// A save settled.
    Quiet,
    /// The watcher hung up: no save will come any more.
    Disconnected,
    /// A newer save came while the test run for a settled one is under way.
    Saved,
    /// The test run started for the generation `token` is over.
    Tested { token: u64, outcome: Option<TestOutcome> },
}

/// What the learner is to be told.
#[derive(Debug)]
pub enum Notice {
    /// The exercise that the learner is on now.
    CurrentExercise(&'static Exercise),
    /// A save settled and is about to be checked.
    Settled,
    /// How the current exercise did.
    Step(StepOutcome),
    /// Every exercise of the module is solved.
    AllComplete,
}

/// The work to do before the loop can go on.
#[derive(Debug)]
pub enum Next {
    /// Run the exercise's tests, and report `Event::CaughtUp`.
    CatchUp(&'static Exercise),
    /// Wait for a save to settle, and report `Event::Quiet` or `Event::Disconnected`.
    WaitForQuiet,
    /// Run the exercise's tests, and report `Event::Tested` with the token.
    RunTests { exercise: &'static Exercise, token: u64 },
    /// Go on with the test run that is under way, and report `Event::Tested` with the
    /// token that it was started with, or `Event::Saved` again.
    AwaitTests,
    /// Return.
    Finish,
}

/// The loop's answer to an event.
#[derive(Debug)]
pub struct Reaction {
    /// To be told in this order, before the work is begun.
    pub notices: Vec<Notice>,
    pub next: Next,
}

/// What a watch loop amounts to.
pub struct LoopView {
    pub exercises: Seq<Exercise>,
    /// How many exercises are solved.
    pub position: nat,
    /// How many saves have settled, or have come while a test run was under way.
    pub generation: nat,
    /// How many settled saves have been checked without completing the module.
    pub ran: nat,
    /// After how many checks to stop, if ever.
    pub limit: Option<nat>,
    pub phase: Phase,
}

/// True if the tests were run and passed.
pub open spec fn passes(outcome: Option<TestOutcome>) -> bool {
    outcome matches Some(ran) && ran.passed
}

impl LoopView {
    pub open spec fn complete(self) -> bool {
        self.position == self.exercises.len()
    }

    /// A loop that is not over has an exercise left to solve, and has not used up
    /// its checks. Saves are checked one at a time.
    pub open spec fn well_formed(self) -> bool {
        &&& self.position <= self.exercises.len()
        &&& self.phase != Phase::Finished ==> self.position < self.exercises.len()
        &&& self.phase == Phase::CatchingUp ==> self.ran == 0 && self.generation == 0
        &&& self.phase == Phase::Waiting ==> self.generation >= self.ran
        &&& self.phase == Phase::Testing ==> self.generation >= self.ran + 1
        &&& self.generation <= u64::MAX
        &&& self.phase == Phase::Waiting || self.phase == Phase::Testing ==> (self.limit matches Some(
            limit,
        ) ==> self.ran < limit)
    }

    /// The exercise that the learner is on.
    pub open spec fn current(self) -> &'static Exercise {
        &self.exercises[self.position as int]
    }

    /// True if the result of the test run for `token` is still wanted: the run was
    /// carried out, and no later save has settled meanwhile.
    pub open spec fn counts(self, token: u64, outcome: Option<TestOutcome>) -> bool {
        outcome is Some && token == self.generation
    }

    /// True if the result of the test run for `token` moves the learner on.
    pub open spec fn advances(self, token: u64, outcome: Option<TestOutcome>) -> bool {
        self.counts(token, outcome) && passes(outcome)
    }

    /// True if the result of the test run for `token` solves the last exercise.
    pub open spec fn solves_last(self, token: u64, outcome: Option<TestOutcome>) -> bool {
        self.advances(token, outcome) && self.position + 1 == self.exercises.len()
    }

    /// True if `ran` checks are as many as the loop is to make.
    pub open spec fn limit_reached(self, ran: nat) -> bool {
        self.limit matches Some(limit) && ran >= limit
    }

    /// True if the loop is waiting for `event`. A save needs a generation of its own,
    /// of which there are `u64::MAX`.
    pub open spec fn accepts(self, event: Event) -> bool {
        match event {
            Event::CaughtUp(_) => self.phase == Phase::CatchingUp,
            Event::Quiet => self.phase == Phase::Waiting && self.generation < u64::MAX,
            Event::Disconnected => self.phase == Phase::Waiting,
            Event::Saved => self.phase == Phase::Testing && self.generation < u64::MAX,
            Event::Tested { .. } => self.phase == Phase::Testing,
        }
    }

    /// The loop after `event`.
    pub open spec fn after(self, event: Event) -> LoopView {
        match event {
            Event::CaughtUp(outcome) => if !passes(outcome) {
                LoopView {
                    phase: if self.limit_reached(self.ran) {
                        Phase::Finished
                    } else {
                        Phase::Waiting
                    },
                    ..self
                }
            } else if self.position + 1 == self.exercises.len() {
                LoopView { position: self.position + 1, phase: Phase::Finished, ..self }
            } else {
                LoopView { position: self.position + 1, ..self }
            },
            Event::Quiet => LoopView {
                generation: self.generation + 1,
                phase: Phase::Testing,
                ..self
            },
            Event::Disconnected => LoopView { phase: Phase::Finished, ..self },
            Event::Saved => LoopView { generation: self.generation + 1, ..self },
            Event::Tested { token, outcome } => if self.solves_last(token, outcome) {
                LoopView { position: self.position + 1, phase: Phase::Finished, ..self }
            } else {
                LoopView {
                    position: if self.advances(token, outcome) {
                        self.position + 1
                    } else {
                        self.position
                    },
                    ran: self.ran + 1,
                    phase: if self.limit_reached(self.ran + 1) {
                        Phase::Finished
                    } else {
                        Phase::Waiting
                    },
                    ..self
                }
            },
        }
    }

    /// What the learner is told on `event`.
    pub open spec fn notices(self, event: Event) -> Seq<Notice> {
        match event {
            Event::CaughtUp(outcome) => if !passes(outcome) {
                seq![Notice::CurrentExercise(self.current())]
            } else if self.after(event).complete() {
                seq![Notice::AllComplete]
            } else {
                seq![]
            },
            Event::Quiet => seq![Notice::Settled],
            Event::Disconnected => seq![],
            Event::Saved => seq![],
            Event::Tested { token, outcome } => if !self.counts(token, outcome) {
                seq![]
            } else {
                let step = Notice::Step(step_outcome(self.current(), outcome->Some_0));
                if !passes(outcome) {
                    seq![step]
                } else if self.after(event).complete() {
                    seq![step, Notice::AllComplete]
                } else {
                    seq![step, Notice::CurrentExercise(self.after(event).current())]
                }
            },
        }
    }

    /// The work that comes after `event`.
    pub open spec fn asks(self, event: Event) -> Next {
        if event is Saved {
            Next::AwaitTests
        } else {
            self.after(event).next()
        }
    }

    /// The work with which the phase that the loop is in begins.
    pub open spec fn next(self) -> Next {
        match self.phase {
            Phase::CatchingUp => Next::CatchUp(self.current()),
            Phase::Waiting => Next::WaitForQuiet,
            Phase::Testing => Next::RunTests {
                exercise: self.current(),
                token: self.generation as u64,
            },
            Phase::Finished => Next::Finish,
        }
    }
}

/// The watch loop of one module: checks the current exercise on each settled
/// save, reports how it did, and moves on when it passes.
///
/// Before it waits for the first save it fast-forwards past the exercises that
/// already pass, so that a returning learner is on the right exercise at once.
pub struct WatchLoop {
    state: MultiExerciseState,
    debouncer: Debouncer,
    ran: u64,
    max_iterations: Option<u32>,
    phase: Phase,
}

impl View for WatchLoop {
    type V = LoopView;

    closed spec fn view(&self) -> LoopView {
        LoopView {
            exercises: self.state.exercises(),
            position: self.state.position(),
            generation: self.debouncer@,
            ran: self.ran as nat,
            limit: match self.max_iterations {
                Some(limit) => Some(limit as nat),
                None => None,
            },
            phase: self.phase,
        }
    }
}

impl WatchLoop {
    /// Begins to watch a module at the progress `state`. The files have to be
    /// watched from before this call, so that no save is missed while the loop
    /// catches up.
    ///
    /// With `max_iterations` the loop ends after so many settled checks, and where
    /// that is none, as soon as it has caught up. Without it, the loop goes on until
    /// the module is solved or the watcher hangs up.
    pub fn start(state: MultiExerciseState, max_iterations: Option<u32>) -> (begun: (
        WatchLoop,
        Reaction,
    ))
        ensures
            begun.0@.well_formed(),
            begun.0@ == (LoopView {
                exercises: state.exercises(),
                position: state.position(),
                generation: 0,
                ran: 0,
                limit: match max_iterations {
                    Some(limit) => Some(limit as nat),
                    None => None,
                },
                phase: if state.position() == state.exercises().len() {
                    Phase::Finished
                } else {
                    Phase::CatchingUp
                },
            }),
            begun.1.notices@ == if begun.0@.complete() {
                seq![Notice::AllComplete]
            } else {
                seq![]
            },
            begun.1.next == begun.0@.next(),
    {
        let mut notices: Vec<Notice> = Vec::new();
        let debouncer = Debouncer::new();
        if state.is_complete() {
            notices.push(Notice::AllComplete);
            let phase = Phase::Finished;
            (
                WatchLoop { state, debouncer, ran: 0, max_iterations, phase },
                Reaction { notices, next: Next::Finish },
            )
        } else {
            let next = Next::CatchUp(state.current().unwrap());
            let phase = Phase::CatchingUp;
            (
                WatchLoop { state, debouncer, ran: 0, max_iterations, phase },
                Reaction { notices, next },
            )
        }
    }

    /// The progress made so far.
    pub fn state(&self) -> (state: MultiExerciseState)
        ensures
            state.exercises() == self@.exercises,
            state.position() == self@.position,
    {
        self.state
    }

    /// True if the loop is waiting for `event`, and has a generation left for a save.
    pub fn accepts(&self, event: &Event) -> (accepted: bool)
        ensures
            accepted == self@.accepts(*event),
    {
        match event {
            Event::CaughtUp(_) => self.phase == Phase::CatchingUp,
            Event::Quiet => self.phase == Phase::Waiting && !self.debouncer.is_current(u64::MAX),
            Event::Disconnected => self.phase == Phase::Waiting,
            Event::Saved => self.phase == Phase::Testing && !self.debouncer.is_current(u64::MAX),
            Event::Tested { .. } => self.phase == Phase::Testing,
        }
    }

    /// Takes in what happened, and says what the learner is to be told and what
    /// work comes next.
    pub fn step(&mut self, event: Event) -> (reaction: Reaction)
        requires
            old(self)@.well_formed(),
            old(self)@.accepts(event),
        ensures
            final(self)@.well_formed(),
            final(self)@ == old(self)@.after(event),
            reaction.notices@ == old(self)@.notices(event),
            reaction.next == old(self)@.asks(event),
    {
        match event {
            Event::CaughtUp(outcome) => self.caught_up(outcome),
            Event::Quiet => self.quiet(),
            Event::Disconnected => {
                self.phase = Phase::Finished;
                Reaction { notices: Vec::new(), next: Next::Finish }
            },
            Event::Saved => {
                let _ = self.debouncer.bump();
                Reaction { notices: Vec::new(), next: Next::AwaitTests }
            },
            Event::Tested { token, outcome } => self.tested(token, outcome),
        }
    }

    /// A test run for catching up is over: past an exercise that passes, and to a
    /// stop at the first that does not.
    fn caught_up(&mut self, outcome: Option<TestOutcome>) -> (reaction: Reaction)
        requires
            old(self)@.well_formed(),
            old(self)@.accepts(Event::CaughtUp(outcome)),
        ensures
            final(self)@ == old(self)@.after(Event::CaughtUp(outcome)),
            reaction.notices@ == old(self)@.notices(Event::CaughtUp(outcome)),
            reaction.next == final(self)@.next(),
    {
        let mut notices: Vec<Notice> = Vec::new();
        match outcome {
            Some(ran) if ran.passed => {
                let _ = self.state.check(ran);
                if self.state.is_complete() {
                    self.phase = Phase::Finished;
                    notices.push(Notice::AllComplete);
                    Reaction { notices, next: Next::Finish }
                } else {
                    Reaction { notices, next: Next::CatchUp(self.state.current().unwrap()) }
                }
            },
            _ => {
                notices.push(Notice::CurrentExercise(self.state.current().unwrap()));
                self.wait_or_stop(notices)
            },
        }
    }

    /// A save settled: its check gets a token of its own.
    fn quiet(&mut self) -> (reaction: Reaction)
        requires
            old(self)@.well_formed(),
            old(self)@.accepts(Event::Quiet),
        ensures
            final(self)@ == old(self)@.after(Event::Quiet),
            reaction.notices@ == old(self)@.notices(Event::Quiet),
            reaction.next == final(self)@.next(),
    {
        let mut notices: Vec<Notice> = Vec::new();
        notices.push(Notice::Settled);
        let exercise = self.state.current().unwrap();
        let token = self.debouncer.bump();
        self.phase = Phase::Testing;
        Reaction { notices, next: Next::RunTests { exercise, token } }
    }

    /// The test run for a settled save is over.
    fn tested(&mut self, token: u64, outcome: Option<TestOutcome>) -> (reaction: Reaction)
        requires
            old(self)@.well_formed(),
            old(self)@.accepts(Event::Tested { token, outcome }),
        ensures
            final(self)@ == old(self)@.after(Event::Tested { token, outcome }),
            reaction.notices@ == old(self)@.notices(Event::Tested { token, outcome }),
            reaction.next == final(self)@.next(),
    {
        let mut notices: Vec<Notice> = Vec::new();
        if let Some(ran) = outcome {
            if self.debouncer.is_current(token) {
                let passed = ran.passed;
                notices.push(Notice::Step(self.state.check(ran)));
                if self.state.is_complete() {
                    notices.push(Notice::AllComplete);
                    self.phase = Phase::Finished;
                    return Reaction { notices, next: Next::Finish };
                } else if passed {
                    notices.push(Notice::CurrentExercise(self.state.current().unwrap()));
                }
            }
        }
        self.ran = self.ran + 1;
        self.wait_or_stop(notices)
    }

    /// Waits for the next save to settle, unless the checks are used up.
    fn wait_or_stop(&mut self, notices: Vec<Notice>) -> (reaction: Reaction)
        ensures
            final(self)@ == (LoopView {
                phase: if old(self)@.limit_reached(old(self)@.ran) {
                    Phase::Finished
                } else {
                    Phase::Waiting
                },
                ..old(self)@
            }),
            reaction.notices == notices,
            reaction.next == final(self)@.next(),
    {
        let stop = match self.max_iterations {
            Some(limit) => self.ran >= limit as u64,
            None => false,
        };
        if stop {
            self.phase = Phase::Finished;
            Reaction { notices, next: Next::Finish }
        } else {
            self.phase = Phase::Waiting;
            Reaction { notices, next: Next::WaitForQuiet }
        }
    }
}

} // verus!
