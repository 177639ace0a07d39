//! What every call of a watch loop does, and how the answers of one call go together
//! with those of the next.

use crate::progress::{Exercise, MultiExerciseState, StepOutcome, TestOutcome};
use crate::session::{Event, LoopView, Next, Notice, Phase, Reaction, WatchLoop};
use crate::session_laws::run;
use vstd::prelude::*;

verus! {

/// A loop starts where the learner is. If an exercise is left, nothing is told yet, and
/// the tests of that very exercise are run first. If none is left, that is told, and
/// the loop is over.
pub proof fn a_loop_starts_with_the_exercise_the_learner_is_on(
    state: MultiExerciseState,
    current: Option<&'static Exercise>,
    max_iterations: Option<u32>,
    begun: (WatchLoop, Reaction),
)
    requires
        call_ensures(MultiExerciseState::current, (&state,), current),
        call_ensures(WatchLoop::start, (state, max_iterations), begun),
    ensures
        match current {
            Some(exercise) => {
                &&& begun.1.notices@.len() == 0
                &&& begun.1.next matches Next::CatchUp(tested) && tested == exercise
                &&& *exercise == state.exercises()[state.position() as int]
                &&& begun.0@.phase == Phase::CatchingUp
            },
            None => {
                &&& begun.1.notices@.len() == 1
                &&& begun.1.notices@[0] is AllComplete
                &&& begun.1.next is Finish
                &&& begun.0@.phase == Phase::Finished
            },
        },
        begun.0@.exercises == state.exercises(),
        begun.0@.position == state.position(),
        begun.0@.generation == 0,
        begun.0@.ran == 0,
        begun.0@.limit is Some <==> max_iterations is Some,
        max_iterations matches Some(limit) ==> begun.0@.limit == Some(limit as nat),
{
}

/// The progress that a loop tells of is its own, in every phase, and at first it is the
/// one that it was started with.
pub proof fn a_loop_tells_its_progress(
    started: MultiExerciseState,
    max_iterations: Option<u32>,
    begun: (WatchLoop, Reaction),
    at_first: MultiExerciseState,
    watch_loop: WatchLoop,
    state: MultiExerciseState,
)
    requires
        call_ensures(WatchLoop::start, (started, max_iterations), begun),
        call_ensures(WatchLoop::state, (&begun.0,), at_first),
        call_ensures(WatchLoop::state, (&watch_loop,), state),
    ensures
        at_first.exercises() == started.exercises(),
        at_first.position() == started.position(),
        state.exercises() == watch_loop@.exercises,
        state.position() == watch_loop@.position,
{
}

/// Whatever happens, the tests that the loop asks for are those of the exercise that
/// the learner is on when it asks, as the loop's own progress tells.
pub proof fn only_the_current_exercise_is_tested(
    watch_loop: &mut WatchLoop,
    event: Event,
    reaction: Reaction,
    state: MultiExerciseState,
    current: Option<&'static Exercise>,
)
    requires
        old(watch_loop)@.well_formed(),
        old(watch_loop)@.accepts(event),
        call_ensures(WatchLoop::step, (watch_loop, event), reaction),
        call_ensures(WatchLoop::state, (&*final(watch_loop),), state),
        call_ensures(MultiExerciseState::current, (&state,), current),
    ensures
        state.exercises() == old(watch_loop)@.exercises,
        match reaction.next {
            Next::CatchUp(exercise) => {
                &&& current == Some(exercise)
                &&& final(watch_loop)@.phase == Phase::CatchingUp
                &&& *exercise == old(watch_loop)@.exercises[final(watch_loop)@.position as int]
            },
            Next::RunTests { exercise, token } => {
                &&& current == Some(exercise)
                &&& final(watch_loop)@.phase == Phase::Testing
                &&& *exercise == old(watch_loop)@.exercises[final(watch_loop)@.position as int]
                &&& token == final(watch_loop)@.generation
            },
            Next::WaitForQuiet => final(watch_loop)@.phase == Phase::Waiting,
            Next::AwaitTests => final(watch_loop)@.phase == Phase::Testing && event is Saved,
            Next::Finish => final(watch_loop)@.phase == Phase::Finished,
        },
{
}

/// A test run for catching up that passes takes the learner past its exercise, and the
/// tests of the one behind it are run next. Any other result puts the learner on its
/// exercise.
pub proof fn catching_up_goes_past_solved_exercises_only(
    watch_loop: &mut WatchLoop,
    outcome: Option<TestOutcome>,
    reaction: Reaction,
)
    requires
        old(watch_loop)@.well_formed(),
        old(watch_loop)@.phase == Phase::CatchingUp,
        call_ensures(WatchLoop::step, (watch_loop, Event::CaughtUp(outcome)), reaction),
    ensures
        ({
            let before = old(watch_loop)@;
            let after = final(watch_loop)@;
            let told = reaction.notices@;
            &&& after.exercises == before.exercises
            &&& after.limit == before.limit
            &&& after.generation == 0
            &&& after.ran == 0
            &&& if outcome matches Some(ran) && ran.passed {
                &&& after.position == before.position + 1
                &&& if before.position + 1 < before.exercises.len() {
                    &&& told.len() == 0
                    &&& after.phase == Phase::CatchingUp
                    &&& reaction.next matches Next::CatchUp(exercise) && *exercise
                        == before.exercises[(before.position + 1) as int]
                } else {
                    &&& told.len() == 1 && told[0] is AllComplete
                    &&& after.phase == Phase::Finished
                    &&& reaction.next is Finish
                }
            } else {
                &&& after.position == before.position
                &&& told.len() == 1
                &&& told[0] matches Notice::CurrentExercise(exercise) && *exercise
                    == before.exercises[before.position as int]
                &&& if before.limit == Some(0nat) {
                    after.phase == Phase::Finished && reaction.next is Finish
                } else {
                    after.phase == Phase::Waiting && reaction.next is WaitForQuiet
                }
            }
        }),
{
}

/// On a settled save the tests of the exercise that the learner is on are run, under a
/// token that no earlier save had. The learner hears that it settled, and nothing else
/// changes.
pub proof fn a_settled_save_tests_the_current_exercise(
    watch_loop: &mut WatchLoop,
    reaction: Reaction,
)
    requires
        old(watch_loop)@.well_formed(),
        old(watch_loop)@.phase == Phase::Waiting,
        old(watch_loop)@.generation < u64::MAX,
        call_ensures(WatchLoop::step, (watch_loop, Event::Quiet), reaction),
    ensures
        reaction.notices@.len() == 1,
        reaction.notices@[0] is Settled,
        reaction.next matches Next::RunTests { exercise, token } && *exercise == old(
            watch_loop,
        )@.exercises[old(watch_loop)@.position as int] && token == old(watch_loop)@.generation + 1,
        final(watch_loop)@.phase == Phase::Testing,
        final(watch_loop)@.generation == old(watch_loop)@.generation + 1,
        final(watch_loop)@.exercises == old(watch_loop)@.exercises,
        final(watch_loop)@.position == old(watch_loop)@.position,
        final(watch_loop)@.ran == old(watch_loop)@.ran,
        final(watch_loop)@.limit == old(watch_loop)@.limit,
{
}

/// A save during a test run is told to nobody and starts no other run. It only makes
/// the run that is under way an old one.
pub proof fn a_save_during_a_run_only_makes_it_old(watch_loop: &mut WatchLoop, reaction: Reaction)
    requires
        old(watch_loop)@.well_formed(),
        old(watch_loop)@.phase == Phase::Testing,
        old(watch_loop)@.generation < u64::MAX,
        call_ensures(WatchLoop::step, (watch_loop, Event::Saved), reaction),
    ensures
        reaction.notices@.len() == 0,
        reaction.next is AwaitTests,
        final(watch_loop)@.phase == Phase::Testing,
        final(watch_loop)@.generation == old(watch_loop)@.generation + 1,
        final(watch_loop)@.exercises == old(watch_loop)@.exercises,
        final(watch_loop)@.position == old(watch_loop)@.position,
        final(watch_loop)@.ran == old(watch_loop)@.ran,
        final(watch_loop)@.limit == old(watch_loop)@.limit,
{
}

/// A watcher that hangs up ends the loop without a word, and keeps what was reached.
pub proof fn a_hang_up_ends_the_loop_silently(watch_loop: &mut WatchLoop, reaction: Reaction)
    requires
        old(watch_loop)@.well_formed(),
        old(watch_loop)@.phase == Phase::Waiting,
        call_ensures(WatchLoop::step, (watch_loop, Event::Disconnected), reaction),
    ensures
        reaction.notices@.len() == 0,
        reaction.next is Finish,
        final(watch_loop)@.phase == Phase::Finished,
        final(watch_loop)@.exercises == old(watch_loop)@.exercises,
        final(watch_loop)@.position == old(watch_loop)@.position,
        final(watch_loop)@.generation == old(watch_loop)@.generation,
        final(watch_loop)@.ran == old(watch_loop)@.ran,
        final(watch_loop)@.limit == old(watch_loop)@.limit,
{
}

/// The result of a test run is reported, as it came, on the exercise that the learner
/// is on, if the run was carried out and no save came after the one it was for.
/// Otherwise nothing is reported. The learner advances only on a reported pass. The
/// loop goes on unless that solved the last exercise or used up the last check.
pub proof fn only_a_reported_pass_advances(
    watch_loop: &mut WatchLoop,
    token: u64,
    outcome: Option<TestOutcome>,
    reaction: Reaction,
)
    requires
        old(watch_loop)@.well_formed(),
        old(watch_loop)@.phase == Phase::Testing,
        call_ensures(WatchLoop::step, (watch_loop, Event::Tested { token, outcome }), reaction),
    ensures
        ({
            let before = old(watch_loop)@;
            let after = final(watch_loop)@;
            let told = reaction.notices@;
            let reported = outcome is Some && token == before.generation;
            let advanced = reported && outcome->0.passed;
            let solved_all = advanced && before.position + 1 == before.exercises.len();
            let out_of_checks = before.limit is Some && before.ran + 1 >= before.limit->0;
            &&& after.exercises == before.exercises
            &&& after.limit == before.limit
            &&& after.generation == before.generation
            &&& after.position == before.position + if advanced {
                1int
            } else {
                0int
            }
            &&& !solved_all ==> after.ran == before.ran + 1
            &&& after.phase == if solved_all || out_of_checks {
                Phase::Finished
            } else {
                Phase::Waiting
            }
            &&& solved_all || out_of_checks ==> reaction.next is Finish
            &&& !solved_all && !out_of_checks ==> reaction.next is WaitForQuiet
            &&& told.len() == if advanced {
                2int
            } else if reported {
                1int
            } else {
                0int
            }
            &&& reported && !advanced ==> (told[0] matches Notice::Step(
                StepOutcome::ExerciseFailed { exercise, outcome: result },
            ) && *exercise == before.exercises[before.position as int] && Some(result) == outcome)
            &&& advanced ==> (told[0] matches Notice::Step(
                StepOutcome::ExercisePassed { exercise, outcome: result },
            ) && *exercise == before.exercises[before.position as int] && Some(result) == outcome)
            &&& solved_all ==> told[1] is AllComplete
            &&& advanced && !solved_all ==> (told[1] matches Notice::CurrentExercise(exercise)
                && *exercise == before.exercises[(before.position + 1) as int])
        }),
{
}

/// The verdict on a settled save is on the exercise whose tests were run for it, and
/// says that it passed exactly if they did.
pub proof fn the_verdict_is_on_the_tested_exercise(
    settling: &mut WatchLoop,
    settled: Reaction,
    testing: &mut WatchLoop,
    outcome: TestOutcome,
    reaction: Reaction,
)
    requires
        old(settling)@.well_formed(),
        old(settling)@.phase == Phase::Waiting,
        old(settling)@.generation < u64::MAX,
        call_ensures(WatchLoop::step, (settling, Event::Quiet), settled),
        *old(testing) == *final(settling),
        settled.next is RunTests,
        call_ensures(
            WatchLoop::step,
            (
                testing,
                Event::Tested { token: settled.next->RunTests_token, outcome: Some(outcome) },
            ),
            reaction,
        ),
    ensures
        reaction.notices@.len() > 0,
        reaction.notices@[0] == Notice::Step(
            if outcome.passed {
                StepOutcome::ExercisePassed {
                    exercise: settled.next->RunTests_exercise,
                    outcome,
                }
            } else {
                StepOutcome::ExerciseFailed {
                    exercise: settled.next->RunTests_exercise,
                    outcome,
                }
            },
        ),
{
}

/// The exercise that is announced is the one whose tests the next settled save runs.
pub proof fn the_announced_exercise_is_tested_next(
    announcing: &mut WatchLoop,
    event: Event,
    announced: Reaction,
    settling: &mut WatchLoop,
    settled: Reaction,
)
    requires
        old(announcing)@.well_formed(),
        old(announcing)@.accepts(event),
        call_ensures(WatchLoop::step, (announcing, event), announced),
        announced.notices@.len() > 0,
        announced.notices@.last() is CurrentExercise,
        announced.next is WaitForQuiet,
        *old(settling) == *final(announcing),
        call_ensures(WatchLoop::step, (settling, Event::Quiet), settled),
    ensures
        settled.next matches Next::RunTests { exercise, .. } && announced.notices@.last()
            == Notice::CurrentExercise(exercise),
{
}

/// A loop takes in what it is waiting for and nothing else, and has room for
/// `u64::MAX` saves. Whatever it takes in, it can be told.
pub proof fn a_loop_takes_in_what_it_waits_for(
    watch_loop: WatchLoop,
    event: Event,
    accepted: bool,
)
    requires
        call_ensures(WatchLoop::accepts, (&watch_loop, &event), accepted),
    ensures
        accepted == match watch_loop@.phase {
            Phase::CatchingUp => event is CaughtUp,
            Phase::Waiting => event is Disconnected || event is Quiet && watch_loop@.generation
                < u64::MAX,
            Phase::Testing => event is Tested || event is Saved && watch_loop@.generation
                < u64::MAX,
            Phase::Finished => false,
        },
{
}

/// A loop that is well-formed and accepts an event can be told of it.
pub proof fn an_accepted_event_can_be_told(watch_loop: &mut WatchLoop, event: Event)
    requires
        old(watch_loop)@.well_formed(),
        call_ensures(WatchLoop::accepts, (&*old(watch_loop), &event), true),
    ensures
        call_requires(WatchLoop::step, (watch_loop, event)),
{
}

/// While a loop catches up, the tests that it asks for after so many passes are those
/// of the exercise that comes so many places behind the one it started with.
pub proof fn catching_up_tests_one_exercise_after_the_other(
    view: LoopView,
    events: Seq<Event>,
)
    requires
        view.well_formed(),
        view.phase == Phase::CatchingUp,
        view.position + events.len() < view.exercises.len(),
        forall|i: int|
            0 <= i < events.len() ==> ((#[trigger] events[i]) matches Event::CaughtUp(Some(ran))
                && ran.passed),
    ensures
        run(view, events).next() matches Next::CatchUp(exercise) && *exercise
            == view.exercises[(view.position + events.len()) as int],
        run(view, events).position == view.position + events.len(),
        events.len() > 0 ==> (run(view, events.drop_last()).asks(events.last()) matches
            Next::CatchUp(exercise) && *exercise == view.exercises[(view.position + events.len()) as int]),
    decreases events.len(),
{
    if events.len() > 0 {
        let rest = events.drop_first();
        assert(events[0] matches Event::CaughtUp(Some(ran)) && ran.passed);
        assert forall|i: int| 0 <= i < rest.len() implies ((#[trigger] rest[i]) matches
            Event::CaughtUp(Some(ran)) && ran.passed) by {
            assert(rest[i] == events[i + 1]);
        }
        catching_up_tests_one_exercise_after_the_other(view.after(events[0]), rest);
        if events.len() == 1 {
            assert(run(view, events.drop_last()) == view);
        } else {
            assert(events.drop_last().drop_first() =~= rest.drop_last());
            assert(rest.last() == events.last());
        }
    }
}

} // verus!
