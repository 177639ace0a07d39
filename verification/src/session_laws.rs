//! What holds of every run of a watch loop.

use crate::progress::{Exercise, StepOutcome, TestOutcome};
use crate::session::{Event, LoopView, Next, Notice, Phase, passes};
use vstd::prelude::*;

verus! {

/// True if the loop waits for each of `events` when it comes.
pub open spec fn legal(view: LoopView, events: Seq<Event>) -> bool
    decreases events.len(),
{
    events.len() > 0 ==> {
        &&& view.accepts(events[0])
        &&& legal(view.after(events[0]), events.drop_first())
    }
}

/// The loop after all of `events`.
pub open spec fn run(view: LoopView, events: Seq<Event>) -> LoopView
    decreases events.len(),
{
    if events.len() == 0 {
        view
    } else {
        run(view.after(events[0]), events.drop_first())
    }
}

/// Everything that the learner is told in the course of `events`.
pub open spec fn heard(view: LoopView, events: Seq<Event>) -> Seq<Notice>
    decreases events.len(),
{
    if events.len() == 0 {
        seq![]
    } else {
        view.notices(events[0]) + heard(view.after(events[0]), events.drop_first())
    }
}

/// How many test runs for settled saves come back in the course of `events`.
pub open spec fn checks(events: Seq<Event>) -> nat
    decreases events.len(),
{
    if events.len() == 0 {
        0
    } else {
        checks(events.drop_first()) + if events[0] is Tested {
            1nat
        } else {
            0nat
        }
    }
}

/// True if `event` reports tests that were run and passed.
pub open spec fn reports_pass(event: Event) -> bool {
    match event {
        Event::CaughtUp(outcome) => passes(outcome),
        Event::Tested { outcome, .. } => passes(outcome),
        _ => false,
    }
}

/// A well-formed loop stays well-formed, and keeps its exercises and its limit.
pub proof fn runs_stay_well_formed(view: LoopView, events: Seq<Event>)
    requires
        view.well_formed(),
        legal(view, events),
    ensures
        run(view, events).well_formed(),
        run(view, events).exercises == view.exercises,
        run(view, events).limit == view.limit,
    decreases events.len(),
{
    if events.len() > 0 {
        runs_stay_well_formed(view.after(events[0]), events.drop_first());
    }
}

/// Progress is sequential: an event moves the learner on by one exercise or not at
/// all, and only tests that passed move the learner on.
pub proof fn progress_is_sequential(view: LoopView, event: Event)
    ensures
        view.after(event).position == view.position || view.after(event).position == view.position
            + 1,
        view.after(event).position == view.position + 1 ==> reports_pass(event),
{
}

/// The loop ends only where the module is solved, the watcher hangs up or the
/// checks are used up.
pub proof fn the_loop_ends_for_a_reason(view: LoopView, event: Event)
    requires
        view.well_formed(),
        view.accepts(event),
    ensures
        view.after(event).phase == Phase::Finished <==> {
            ||| view.after(event).complete()
            ||| event is Disconnected
            ||| event is Tested && view.limit_reached(view.ran + 1)
            ||| event is CaughtUp && !reports_pass(event) && view.limit_reached(0)
        },
{
}

/// Progress is never lost.
pub proof fn progress_never_goes_back(view: LoopView, events: Seq<Event>)
    ensures
        view.position <= run(view, events).position <= view.position + events.len(),
    decreases events.len(),
{
    if events.len() > 0 {
        progress_never_goes_back(view.after(events[0]), events.drop_first());
    }
}

/// A loop that is over takes nothing in any more, and one that is not can go on:
/// it takes in whatever its work comes to, as long as it has generations left.
pub proof fn only_a_finished_loop_is_over(view: LoopView, event: Event)
    requires
        view.generation < u64::MAX,
    ensures
        view.phase == Phase::Finished ==> !view.accepts(event),
        view.phase == Phase::CatchingUp && event is CaughtUp ==> view.accepts(event),
        view.phase == Phase::Waiting && (event is Quiet || event is Disconnected)
            ==> view.accepts(event),
        view.phase == Phase::Testing && (event is Saved || event is Tested) ==> view.accepts(
            event,
        ),
{
}

proof fn nothing_follows_the_end(view: LoopView, events: Seq<Event>)
    requires
        view.phase == Phase::Finished,
        legal(view, events),
    ensures
        events.len() == 0,
        run(view, events) == view,
        heard(view, events) == Seq::<Notice>::empty(),
        checks(events) == 0,
{
    if events.len() > 0 {
        assert(view.accepts(events[0]));
    }
}

/// Completion is announced exactly where the last exercise has been solved. It is
/// announced once, it is the last thing that the learner hears, and the loop is
/// over with it: it does not wait for another save.
pub proof fn completion_ends_the_loop(view: LoopView, events: Seq<Event>)
    requires
        view.well_formed(),
        view.phase != Phase::Finished,
        legal(view, events),
    ensures
        run(view, events).complete() <==> heard(view, events).contains(Notice::AllComplete),
        run(view, events).complete() ==> {
            &&& run(view, events).phase == Phase::Finished
            &&& heard(view, events).last() == Notice::AllComplete
            &&& forall|i: int|
                0 <= i < heard(view, events).len() - 1 ==> (#[trigger] heard(view, events)[i])
                    != Notice::AllComplete
        },
    decreases events.len(),
{
    if events.len() > 0 {
        let next = view.after(events[0]);
        let rest = events.drop_first();
        let told = view.notices(events[0]);
        if next.phase == Phase::Finished {
            nothing_follows_the_end(next, rest);
            assert(heard(view, events) =~= told);
            if next.complete() {
                assert(told.last() == Notice::AllComplete);
                assert(told[told.len() - 1] == Notice::AllComplete);
            }
        } else {
            completion_ends_the_loop(next, rest);
            assert(forall|i: int| 0 <= i < told.len() ==> (#[trigger] told[i])
                != Notice::AllComplete);
            let all = heard(view, events);
            assert(all == told + heard(next, rest));
            if heard(next, rest).contains(Notice::AllComplete) {
                let i = choose|i: int|
                    0 <= i < heard(next, rest).len() && heard(next, rest)[i]
                        == Notice::AllComplete;
                assert(all[told.len() + i] == Notice::AllComplete);
            }
            if all.contains(Notice::AllComplete) {
                let i = choose|i: int| 0 <= i < all.len() && all[i] == Notice::AllComplete;
                assert(i >= told.len());
                assert(heard(next, rest)[i - told.len()] == Notice::AllComplete);
            }
        }
    }
}

/// A failing save is reported and changes nothing: the learner stays on the
/// exercise.
pub proof fn a_failing_save_stays(view: LoopView, token: u64, outcome: TestOutcome)
    requires
        view.counts(token, Some(outcome)),
        !outcome.passed,
    ensures
        view.after(Event::Tested { token, outcome: Some(outcome) }).position == view.position,
        view.notices(Event::Tested { token, outcome: Some(outcome) }) == seq![
            Notice::Step(StepOutcome::ExerciseFailed { exercise: view.current(), outcome }),
        ],
{
}

/// A passing save is reported first. Then the learner hears of the exercise that
/// comes next, or that there is none.
pub proof fn a_passing_save_moves_on(view: LoopView, token: u64, outcome: TestOutcome)
    requires
        view.well_formed(),
        view.phase == Phase::Testing,
        view.counts(token, Some(outcome)),
        outcome.passed,
    ensures
        view.after(Event::Tested { token, outcome: Some(outcome) }).position == view.position + 1,
        view.notices(Event::Tested { token, outcome: Some(outcome) }) == seq![
            Notice::Step(StepOutcome::ExercisePassed { exercise: view.current(), outcome }),
            if view.position + 1 < view.exercises.len() {
                Notice::CurrentExercise(&view.exercises[(view.position + 1) as int])
            } else {
                Notice::AllComplete
            },
        ],
{
}

/// The result of a run that a later save has superseded is discarded: nothing is
/// told and no progress is made, whatever the result was.
pub proof fn a_superseded_result_is_discarded(
    view: LoopView,
    token: u64,
    outcome: Option<TestOutcome>,
)
    requires
        token != view.generation,
    ensures
        view.after(Event::Tested { token, outcome }).position == view.position,
        view.notices(Event::Tested { token, outcome }) == Seq::<Notice>::empty(),
{
}

/// A newer save that comes while the tests for a settled save are run supersedes
/// that run: whatever its result, nothing is told of it and no progress is made on
/// it. If the loop goes on, the next settled save checks the same exercise again.
pub proof fn a_newer_save_supersedes_the_run(
    view: LoopView,
    events: Seq<Event>,
    token: u64,
    outcome: Option<TestOutcome>,
)
    requires
        view.well_formed(),
        view.phase == Phase::Waiting,
        legal(view, events),
        events.len() >= 3,
        events[0] is Quiet,
        token == view.generation + 1,
        forall|i: int| 1 <= i < events.len() - 1 ==> !((#[trigger] events[i]) is Tested),
        events.last() == (Event::Tested { token, outcome }),
    ensures
        heard(view, events) == seq![Notice::Settled],
        run(view, events).position == view.position,
        run(view, events).phase == if view.limit_reached(view.ran + 1) {
            Phase::Finished
        } else {
            Phase::Waiting
        },
        view.asks(events[0]) matches Next::RunTests { exercise, token: given } && *exercise
            == view.exercises[view.position as int] && given == token,
        run(view, events).asks(Event::Quiet) matches Next::RunTests { exercise, .. } && *exercise
            == view.exercises[view.position as int],
{
    let testing = view.after(events[0]);
    let rest = events.drop_first();
    assert forall|i: int| 0 <= i < rest.len() - 1 implies !((#[trigger] rest[i]) is Tested) by {
        assert(rest[i] == events[i + 1]);
    }
    assert(rest.last() == events.last());
    superseded_run(testing, rest, token, outcome);
    assert(heard(view, events) =~= seq![Notice::Settled]);
}

proof fn superseded_run(
    view: LoopView,
    events: Seq<Event>,
    token: u64,
    outcome: Option<TestOutcome>,
)
    requires
        view.phase == Phase::Testing,
        legal(view, events),
        events.len() >= 1,
        forall|i: int| 0 <= i < events.len() - 1 ==> !((#[trigger] events[i]) is Tested),
        events.last() == (Event::Tested { token, outcome }),
        token <= view.generation,
        token < view.generation + events.len() - 1,
    ensures
        heard(view, events) == Seq::<Notice>::empty(),
        run(view, events).position == view.position,
        run(view, events).exercises == view.exercises,
        run(view, events).phase == if view.limit_reached(view.ran + 1) {
            Phase::Finished
        } else {
            Phase::Waiting
        },
    decreases events.len(),
{
    let next = view.after(events[0]);
    let rest = events.drop_first();
    if events.len() == 1 {
        assert(events[0] == events.last());
        assert(heard(next, rest) =~= seq![]);
        assert(run(next, rest) == next);
        assert(heard(view, events) =~= seq![]);
    } else {
        assert(!(events[0] is Tested));
        assert(events[0] is Saved);
        assert forall|i: int| 0 <= i < rest.len() - 1 implies !((#[trigger] rest[i]) is Tested) by {
            assert(rest[i] == events[i + 1]);
        }
        assert(rest.last() == events.last());
        superseded_run(next, rest, token, outcome);
        assert(heard(view, events) =~= seq![]);
    }
}

/// The token that a settled save is given counts when its result comes back, and
/// no token that an earlier save was given does.
pub proof fn only_the_latest_save_counts(view: LoopView, outcome: TestOutcome, token: u64)
    requires
        view.well_formed(),
        view.phase == Phase::Waiting,
        view.generation < u64::MAX,
    ensures
        ({
            let testing = view.after(Event::Quiet);
            &&& testing.next() matches Next::RunTests { token: given, .. }
            &&& testing.counts(given, Some(outcome))
            &&& token <= view.generation ==> !testing.counts(token, Some(outcome))
        }),
{
}

/// A loop with a limit never makes more checks than that, and with a limit of zero
/// it makes none.
pub proof fn checks_stay_within_the_limit(view: LoopView, events: Seq<Event>)
    requires
        view.well_formed(),
        view.phase != Phase::Finished,
        legal(view, events),
    ensures
        view.limit matches Some(limit) ==> view.ran + checks(events) <= limit,
        run(view, events).phase != Phase::Finished ==> run(view, events).ran == view.ran + checks(
            events,
        ),
    decreases events.len(),
{
    if events.len() > 0 {
        let next = view.after(events[0]);
        let rest = events.drop_first();
        if next.phase == Phase::Finished {
            nothing_follows_the_end(next, rest);
        } else {
            checks_stay_within_the_limit(next, rest);
        }
    }
}

/// A returning learner who has solved the next `solved` exercises, but not the one
/// after them, is put on that one before any save. That exercise is the only one
/// that the learner hears of. With a limit of zero the loop is over then.
pub proof fn catching_up_finds_the_first_unsolved(
    view: LoopView,
    events: Seq<Event>,
    solved: nat,
)
    requires
        view.well_formed(),
        view.phase == Phase::CatchingUp,
        view.position + solved < view.exercises.len(),
        events.len() == solved + 1,
        forall|i: int| 0 <= i < events.len() ==> (#[trigger] events[i]) is CaughtUp,
        forall|i: int| 0 <= i < solved ==> reports_pass(#[trigger] events[i]),
        !reports_pass(events[solved as int]),
    ensures
        legal(view, events),
        run(view, events).phase == if view.limit_reached(0) {
            Phase::Finished
        } else {
            Phase::Waiting
        },
        run(view, events).position == view.position + solved,
        heard(view, events) == seq![
            Notice::CurrentExercise(&view.exercises[(view.position + solved) as int]),
        ],
    decreases solved,
{
    let next = view.after(events[0]);
    let rest = events.drop_first();
    if solved == 0 {
        assert(!reports_pass(events[0]));
        assert(rest.len() == 0);
        assert(heard(next, rest) =~= seq![]);
        assert(legal(next, rest));
    } else {
        assert(reports_pass(events[0]));
        assert(rest[solved - 1] == events[solved as int]);
        assert forall|i: int| 0 <= i < solved - 1 implies reports_pass(#[trigger] rest[i]) by {
            assert(rest[i] == events[i + 1]);
        }
        assert forall|i: int| 0 <= i < rest.len() implies (#[trigger] rest[i]) is CaughtUp by {
            assert(rest[i] == events[i + 1]);
        }
        catching_up_finds_the_first_unsolved(next, rest, (solved - 1) as nat);
        assert(view.notices(events[0]) =~= seq![]);
        assert(heard(view, events) =~= heard(next, rest));
    }
}

/// A returning learner who has solved everything hears that the module is complete
/// and nothing else. No save is needed.
pub proof fn a_solved_module_completes_at_once(view: LoopView, events: Seq<Event>)
    requires
        view.well_formed(),
        view.phase == Phase::CatchingUp,
        events.len() == view.exercises.len() - view.position,
        forall|i: int| 0 <= i < events.len() ==> (#[trigger] events[i]) is CaughtUp,
        forall|i: int| 0 <= i < events.len() ==> reports_pass(#[trigger] events[i]),
    ensures
        legal(view, events),
        run(view, events).complete(),
        run(view, events).phase == Phase::Finished,
        heard(view, events) == seq![Notice::AllComplete],
    decreases events.len(),
{
    let next = view.after(events[0]);
    let rest = events.drop_first();
    assert(reports_pass(events[0]) && events[0] is CaughtUp);
    if events.len() == 1 {
        assert(heard(next, rest) =~= seq![]);
        assert(legal(next, rest));
        assert(heard(view, events) =~= seq![Notice::AllComplete]);
    } else {
        assert forall|i: int| 0 <= i < rest.len() implies reports_pass(#[trigger] rest[i]) by {
            assert(rest[i] == events[i + 1]);
        }
        assert forall|i: int| 0 <= i < rest.len() implies (#[trigger] rest[i]) is CaughtUp by {
            assert(rest[i] == events[i + 1]);
        }
        a_solved_module_completes_at_once(next, rest);
        assert(view.notices(events[0]) =~= seq![]);
        assert(heard(view, events) =~= heard(next, rest));
    }
}

/// As long as no tests pass, the learner stays on the same exercise, however often
/// a file is saved, and the module is never announced complete.
pub proof fn an_unsolved_module_never_completes(view: LoopView, events: Seq<Event>)
    requires
        view.well_formed(),
        view.phase != Phase::Finished,
        legal(view, events),
        forall|i: int| 0 <= i < events.len() ==> !reports_pass(#[trigger] events[i]),
    ensures
        run(view, events).position == view.position,
        !run(view, events).complete(),
        !heard(view, events).contains(Notice::AllComplete),
{
    completion_ends_the_loop(view, events);
    no_pass_no_progress(view, events);
}

proof fn no_pass_no_progress(view: LoopView, events: Seq<Event>)
    requires
        forall|i: int| 0 <= i < events.len() ==> !reports_pass(#[trigger] events[i]),
    ensures
        run(view, events).position == view.position,
        run(view, events).exercises == view.exercises,
    decreases events.len(),
{
    if events.len() > 0 {
        let rest = events.drop_first();
        assert(!reports_pass(events[0]));
        assert forall|i: int| 0 <= i < rest.len() implies !reports_pass(#[trigger] rest[i]) by {
            assert(rest[i] == events[i + 1]);
        }
        no_pass_no_progress(view.after(events[0]), rest);
    }
}

/// What a learner who has caught up was told last.
pub enum Told {
    /// Which exercise they are on, or that it failed.
    Ready,
    /// That a save settled.
    Settled,
    /// That an exercise passed.
    Passed,
}

/// True if `notices` can follow what was told last, for a learner who has solved
/// `position` of `exercises`.
///
/// After a settled save nothing is told, or that the exercise failed, or that it
/// passed. After a pass comes the next exercise, or where there is none, that all of
/// them are solved, and nothing after that. Every verdict is on the exercise that the
/// learner is on.
pub open spec fn in_order(
    exercises: Seq<Exercise>,
    position: nat,
    told: Told,
    notices: Seq<Notice>,
) -> bool
    decreases notices.len(),
{
    notices.len() > 0 ==> {
        let rest = notices.drop_first();
        match (told, notices[0]) {
            (Told::Ready, Notice::Settled) => in_order(exercises, position, Told::Settled, rest),
            (Told::Settled, Notice::Settled) => in_order(exercises, position, Told::Settled, rest),
            (
                Told::Settled,
                Notice::Step(StepOutcome::ExerciseFailed { exercise, .. }),
            ) => {
                &&& position < exercises.len()
                &&& *exercise == exercises[position as int]
                &&& in_order(exercises, position, Told::Ready, rest)
            },
            (
                Told::Settled,
                Notice::Step(StepOutcome::ExercisePassed { exercise, .. }),
            ) => {
                &&& position < exercises.len()
                &&& *exercise == exercises[position as int]
                &&& in_order(exercises, position + 1, Told::Passed, rest)
            },
            (Told::Passed, Notice::CurrentExercise(exercise)) => {
                &&& position < exercises.len()
                &&& *exercise == exercises[position as int]
                &&& in_order(exercises, position, Told::Ready, rest)
            },
            (Told::Passed, Notice::AllComplete) => {
                &&& position == exercises.len()
                &&& rest.len() == 0
            },
            _ => false,
        }
    }
}

/// True if `notices` can be what a learner hears who starts with `position` of
/// `exercises` solved: nothing as long as they catch up, then that all is solved, or
/// the exercise that they are on and what follows it in order.
pub open spec fn in_order_from_the_start(
    exercises: Seq<Exercise>,
    position: nat,
    notices: Seq<Notice>,
) -> bool {
    ||| notices.len() == 0
    ||| notices == seq![Notice::AllComplete]
    ||| exists|reached: nat|
        position <= reached < exercises.len() && notices[0] == Notice::CurrentExercise(
            &exercises[reached as int],
        ) && #[trigger] in_order(exercises, reached, Told::Ready, notices.drop_first())
}

/// What a learner who has caught up is told comes in order.
pub proof fn notices_come_in_order(view: LoopView, told: Told, events: Seq<Event>)
    requires
        view.well_formed(),
        view.phase == Phase::Waiting && !(told is Passed) || view.phase == Phase::Testing
            && told is Settled,
        legal(view, events),
    ensures
        in_order(view.exercises, view.position, told, heard(view, events)),
    decreases events.len(),
{
    if events.len() > 0 {
        let next = view.after(events[0]);
        let rest = events.drop_first();
        let told_now = view.notices(events[0]);
        let told_later = heard(next, rest);
        let told_next = match events[0] {
            Event::Quiet => Told::Settled,
            Event::Tested { .. } => if told_now.len() > 0 {
                Told::Ready
            } else {
                told
            },
            _ => told,
        };
        if next.phase == Phase::Finished {
            nothing_follows_the_end(next, rest);
        } else {
            notices_come_in_order(next, told_next, rest);
        }
        let all = heard(view, events);
        assert(all == told_now + told_later);
        reveal_with_fuel(in_order, 3);
        if told_now.len() == 0 {
            assert(all =~= told_later);
        } else if told_now.len() == 1 {
            assert(all.drop_first() =~= told_later);
        } else {
            assert(all.drop_first().drop_first() =~= told_later);
            assert(all.drop_first()[0] == told_now[1]);
        }
    }
}

/// Everything that a learner is told from the start on comes in order.
pub proof fn notices_come_in_order_from_the_start(view: LoopView, events: Seq<Event>)
    requires
        view.well_formed(),
        view.phase == Phase::CatchingUp,
        legal(view, events),
    ensures
        in_order_from_the_start(view.exercises, view.position, heard(view, events)),
    decreases events.len(),
{
    if events.len() > 0 {
        let next = view.after(events[0]);
        let rest = events.drop_first();
        let all = heard(view, events);
        if next.phase == Phase::Finished {
            nothing_follows_the_end(next, rest);
            assert(all =~= view.notices(events[0]));
            assert(all.drop_first().len() == 0);
            if !next.complete() {
                assert(in_order(view.exercises, view.position, Told::Ready, all.drop_first()));
            }
        } else if next.phase == Phase::Waiting {
            notices_come_in_order(next, Told::Ready, rest);
            assert(all.drop_first() =~= heard(next, rest));
            assert(in_order(view.exercises, view.position, Told::Ready, all.drop_first()));
        } else {
            notices_come_in_order_from_the_start(next, rest);
            assert(all =~= heard(next, rest));
        }
    }
}

} // verus!
