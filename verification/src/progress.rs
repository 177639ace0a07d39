//! The exercises of a module and how far a learner has come in them.

use vstd::prelude::*;

verus! {

/// One exercise: a skeleton file to fill in, and the tests that judge it.
#[derive(Debug)]
pub struct Exercise {
    pub name: &'static str,
    /// Selects this exercise's tests among those of its package.
    pub test_filter: &'static str,
    /// Selects this exercise's trace replay.
    pub trace_key: &'static str,
    /// Where the skeleton lies, from the workspace root.
    pub skeleton_path: &'static str,
    /// The values that the trace replay works on.
    pub fixture: &'static [i32],
    pub concept_note: &'static str,
    pub hints: &'static [&'static str],
    /// The value that the exercise looks for, inserts or removes, if there is one.
    pub target: Option<i32>,
    /// True if the trace itself adds the fixture's values.
    pub starts_empty: bool,
}

/// A group of exercises that live in one package.
#[derive(Debug)]
pub struct Module {
    pub name: &'static str,
    pub exercises: &'static [Exercise],
    /// The directory that holds the module's skeletons, from the workspace root.
    pub watch_dir: &'static str,
    pub package: &'static str,
}

/// What a run of an exercise's tests came to.
#[derive(Debug)]
pub struct TestOutcome {
    pub passed: bool,
    pub output: String,
}

/// What checking the current exercise came to.
#[derive(Debug)]
pub enum StepOutcome {
    ExerciseFailed { exercise: &'static Exercise, outcome: TestOutcome },
    ExercisePassed { exercise: &'static Exercise, outcome: TestOutcome },
}

/// Sequential progress through a module: every exercise before the current one
/// is solved, and the current one has to pass before the next is reached.
#[derive(Clone, Copy, Debug)]
pub struct MultiExerciseState {
    exercises: &'static [Exercise],
    position: usize,
}

impl MultiExerciseState {
    /// The module's exercises, in order.
    pub closed spec fn exercises(&self) -> Seq<Exercise> {
        self.exercises@
    }

    /// How many exercises are solved, which is the index of the current one.
    pub closed spec fn position(&self) -> nat {
        self.position as nat
    }

    /// The position never runs past the end of the module.
    #[verifier::type_invariant]
    spec fn well_formed(self) -> bool {
        self.position <= self.exercises@.len()
    }

    /// Starts at the first exercise.
    pub fn new(exercises: &'static [Exercise]) -> (state: Self)
        ensures
            state.exercises() == exercises@,
            state.position() == 0,
    {
        MultiExerciseState { exercises, position: 0 }
    }

    /// The exercise that the learner is on, unless all of them are solved.
    pub fn current(&self) -> (exercise: Option<&'static Exercise>)
        ensures
            exercise == if self.position() < self.exercises().len() {
                Some(&self.exercises()[self.position() as int])
            } else {
                None
            },
    {
        if self.position < self.exercises.len() {
            Some(&self.exercises[self.position])
        } else {
            None
        }
    }

    /// True if every exercise is solved.
    pub fn is_complete(&self) -> (complete: bool)
        ensures
            complete == (self.position() == self.exercises().len()),
            self.position() <= self.exercises().len(),
    {
        proof {
            use_type_invariant(self);
        }
        self.position == self.exercises.len()
    }

    /// Judges the current exercise by `outcome`: a pass moves on to the next
    /// exercise, a failure stays.
    pub fn check(&mut self, outcome: TestOutcome) -> (step: StepOutcome)
        requires
            old(self).position() < old(self).exercises().len(),
        ensures
            final(self).exercises() == old(self).exercises(),
            final(self).position() == old(self).position() + if outcome.passed {
                1nat
            } else {
                0nat
            },
            step == step_outcome(
                &old(self).exercises()[old(self).position() as int],
                outcome,
            ),
    {
        let exercise = &self.exercises[self.position];
        if outcome.passed {
            self.position = self.position + 1;
            StepOutcome::ExercisePassed { exercise, outcome }
        } else {
            StepOutcome::ExerciseFailed { exercise, outcome }
        }
    }
}

/// The report on `exercise` for a test run that came to `outcome`.
pub open spec fn step_outcome(exercise: &'static Exercise, outcome: TestOutcome) -> StepOutcome {
    if outcome.passed {
        StepOutcome::ExercisePassed { exercise, outcome }
    } else {
        StepOutcome::ExerciseFailed { exercise, outcome }
    }
}

/// How many of `outcomes` are passes.
pub open spec fn passes_among(outcomes: Seq<TestOutcome>) -> nat
    decreases outcomes.len(),
{
    if outcomes.len() == 0 {
        0
    } else {
        passes_among(outcomes.drop_last()) + if outcomes.last().passed {
            1nat
        } else {
            0nat
        }
    }
}

/// A learner starts on the first exercise of a module, and after any number of checks
/// they are on the one behind as many exercises as there were passes. All are solved
/// when there were as many passes as exercises.
pub proof fn every_pass_moves_on_by_one(
    exercises: &'static [Exercise],
    start: MultiExerciseState,
    checked: Seq<&mut MultiExerciseState>,
    outcomes: Seq<TestOutcome>,
    steps: Seq<StepOutcome>,
    end: MultiExerciseState,
    current: Option<&'static Exercise>,
    complete: bool,
)
    requires
        checked.len() == outcomes.len(),
        steps.len() == outcomes.len(),
        call_ensures(MultiExerciseState::new, (exercises,), start),
        forall|i: int|
            0 <= i < outcomes.len() ==> call_ensures(
                MultiExerciseState::check,
                (#[trigger] checked[i], outcomes[i]),
                steps[i],
            ),
        forall|i: int|
            0 <= i < outcomes.len() ==> *(#[trigger] checked[i]) == if i == 0 {
                start
            } else {
                *final(checked[i - 1])
            },
        end == if outcomes.len() == 0 {
            start
        } else {
            *final(checked.last())
        },
        call_ensures(MultiExerciseState::current, (&end,), current),
        call_ensures(MultiExerciseState::is_complete, (&end,), complete),
    ensures
        passes_among(outcomes) <= exercises@.len(),
        complete <==> passes_among(outcomes) == exercises@.len(),
        complete <==> current is None,
        current matches Some(exercise) ==> *exercise == exercises@[passes_among(outcomes) as int],
{
    progress_counts_passes(exercises, start, checked, outcomes, steps, outcomes.len() as int);
    assert(outcomes.take(outcomes.len() as int) =~= outcomes);
}

proof fn progress_counts_passes(
    exercises: &'static [Exercise],
    start: MultiExerciseState,
    checked: Seq<&mut MultiExerciseState>,
    outcomes: Seq<TestOutcome>,
    steps: Seq<StepOutcome>,
    count: int,
)
    requires
        0 <= count <= outcomes.len(),
        checked.len() == outcomes.len(),
        steps.len() == outcomes.len(),
        call_ensures(MultiExerciseState::new, (exercises,), start),
        forall|i: int|
            0 <= i < outcomes.len() ==> call_ensures(
                MultiExerciseState::check,
                (#[trigger] checked[i], outcomes[i]),
                steps[i],
            ),
        forall|i: int|
            0 <= i < outcomes.len() ==> *(#[trigger] checked[i]) == if i == 0 {
                start
            } else {
                *final(checked[i - 1])
            },
    ensures
        ({
            let state = if count == 0 {
                start
            } else {
                *final(checked[count - 1])
            };
            &&& state.exercises() == exercises@
            &&& state.position() == passes_among(outcomes.take(count))
        }),
    decreases count,
{
    if count > 0 {
        progress_counts_passes(exercises, start, checked, outcomes, steps, count - 1);
        assert(outcomes.take(count).drop_last() =~= outcomes.take(count - 1));
        assert(*checked[count - 1] == if count == 1 {
            start
        } else {
            *final(checked[count - 2])
        });
    }
}

/// A check reports on the exercise that the learner was on, with the outcome as it
/// came, and says that it passed exactly if it did. On a failure they stay on it.
pub proof fn a_check_reports_on_the_current_exercise(
    state: &mut MultiExerciseState,
    exercise: &'static Exercise,
    outcome: TestOutcome,
    step: StepOutcome,
    current: Option<&'static Exercise>,
)
    requires
        call_ensures(MultiExerciseState::current, (&*old(state),), Some(exercise)),
        call_ensures(MultiExerciseState::check, (state, outcome), step),
        call_ensures(MultiExerciseState::current, (&*final(state),), current),
    ensures
        outcome.passed ==> (step matches StepOutcome::ExercisePassed { exercise: judged, outcome: by }
            && judged == exercise && by == outcome),
        !outcome.passed ==> (step matches StepOutcome::ExerciseFailed {
            exercise: judged,
            outcome: by,
        } && judged == exercise && by == outcome),
        !outcome.passed ==> current == Some(exercise),
{
}

} // verus!
