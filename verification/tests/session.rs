use algolings_cli::hints::HintTracker;
use algolings_cli::module_run::{after_trace, replay_failure, respond, starting_array, Effect, TraceResult};
use algolings_cli::progress::{Exercise, Module, MultiExerciseState, StepOutcome, TestOutcome};
use algolings_cli::session::{Event, Next, Notice, Reaction, WatchLoop};
use algolings_cli::startup::{next_module_name, plain_mode, total_exercises};

const SORT_EXERCISES: &[Exercise] = &[
    Exercise {
        name: "bubble_sort",
        test_filter: "bubble",
        trace_key: "bubble",
        skeleton_path: "exercises/sort/src/bubble.rs",
        fixture: &[3, 1, 2],
        concept_note: "Each pass carries the largest value to the end.",
        hints: &["Compare neighbours.", "Swap them if they are out of order."],
        target: None,
        starts_empty: false,
    },
    Exercise {
        name: "insertion_sort",
        test_filter: "insertion",
        trace_key: "insertion",
        skeleton_path: "exercises/sort/src/insertion.rs",
        fixture: &[2, 9, 4],
        concept_note: "The front of the array is always sorted.",
        hints: &["Take the next value."],
        target: Some(-4),
        starts_empty: true,
    },
];

const FLAG_EXERCISE: &[Exercise] = &[Exercise {
    name: "flag",
    test_filter: "flag_check",
    trace_key: "flag_check",
    skeleton_path: "flag.txt",
    fixture: &[1],
    concept_note: "n/a",
    hints: &["hint"],
    target: None,
    starts_empty: false,
}];

const SORTING: Module = Module {
    name: "sorting",
    exercises: SORT_EXERCISES,
    watch_dir: "exercises/sort/src",
    package: "exercises-sort",
};

const FLAGS: Module = Module {
    name: "flags",
    exercises: FLAG_EXERCISE,
    watch_dir: ".",
    package: "flagpkg",
};

fn ran(passed: bool) -> Option<TestOutcome> {
    Some(TestOutcome { passed, output: "test output".to_string() })
}

fn take_step(watch_loop: &mut WatchLoop, event: Event) -> Reaction {
    assert!(watch_loop.accepts(&event));
    watch_loop.step(event)
}

fn save(watch_loop: &mut WatchLoop, outcome: Option<TestOutcome>) -> Reaction {
    let settled = take_step(watch_loop, Event::Quiet);
    assert!(matches!(settled.notices[..], [Notice::Settled]));
    match settled.next {
        Next::RunTests { token, .. } => take_step(watch_loop, Event::Tested { token, outcome }),
        other => panic!("expected a test run, got {:?}", other),
    }
}

#[test]
fn already_all_solved_completes_immediately_via_catch_up() {
    // Every exercise already passes: a returning learner is fast-forwarded
    // straight to completion, without any save.
    let state = MultiExerciseState::new(SORT_EXERCISES);
    let (mut watch_loop, mut reaction) = WatchLoop::start(state, Some(0));
    for exercise in SORT_EXERCISES {
        assert!(reaction.notices.is_empty());
        assert!(matches!(reaction.next, Next::CatchUp(current) if current.name == exercise.name));
        reaction = take_step(&mut watch_loop, Event::CaughtUp(ran(true)));
    }
    assert!(matches!(reaction.notices[..], [Notice::AllComplete]));
    assert!(matches!(reaction.next, Next::Finish));
    assert!(watch_loop.state().is_complete());
}

#[test]
fn all_unsolved_stays_on_the_first_exercise_and_never_completes() {
    let state = MultiExerciseState::new(SORT_EXERCISES);
    let (mut watch_loop, _) = WatchLoop::start(state, Some(1));
    let ready = take_step(&mut watch_loop, Event::CaughtUp(ran(false)));
    assert!(matches!(
        ready.notices[..],
        [Notice::CurrentExercise(exercise)] if exercise.name == "bubble_sort"
    ));
    assert!(matches!(ready.next, Next::WaitForQuiet));

    let checked = save(&mut watch_loop, ran(false));
    assert!(matches!(
        checked.notices[..],
        [Notice::Step(StepOutcome::ExerciseFailed { exercise, .. })]
            if exercise.name == "bubble_sort"
    ));
    assert!(matches!(checked.next, Next::Finish));
    assert!(!watch_loop.state().is_complete());
    assert_eq!(watch_loop.state().current().map(|e| e.name), Some("bubble_sort"));
}

#[test]
fn on_current_exercise_can_seed_a_hint_tracker_before_any_save() {
    let state = MultiExerciseState::new(SORT_EXERCISES);
    let mut tracker = HintTracker::new();
    let (mut watch_loop, _) = WatchLoop::start(state, Some(1));
    let ready = take_step(&mut watch_loop, Event::CaughtUp(ran(false)));
    for notice in ready.notices {
        for effect in respond(true, &SORTING, None, 2, notice) {
            if let Effect::SeedHints(exercise) = effect {
                tracker.set_current_exercise(exercise);
            }
        }
    }
    assert_eq!(tracker.next_hint(), Some(SORT_EXERCISES[0].hints[0]));
}

#[test]
fn completing_the_last_exercise_via_a_live_save_returns_promptly() {
    let state = MultiExerciseState::new(FLAG_EXERCISE);
    let (mut watch_loop, _) = WatchLoop::start(state, None);
    take_step(&mut watch_loop, Event::CaughtUp(ran(false)));
    let checked = save(&mut watch_loop, ran(true));
    assert!(matches!(
        checked.notices[..],
        [Notice::Step(StepOutcome::ExercisePassed { .. }), Notice::AllComplete]
    ));
    assert!(matches!(checked.next, Next::Finish));
    assert!(watch_loop.state().is_complete());
    assert!(!watch_loop.accepts(&Event::Quiet));
    assert!(!watch_loop.accepts(&Event::Disconnected));
}

#[test]
fn a_module_without_exercises_is_complete_from_the_start() {
    let (watch_loop, reaction) = WatchLoop::start(MultiExerciseState::new(&[]), None);
    assert!(matches!(reaction.notices[..], [Notice::AllComplete]));
    assert!(matches!(reaction.next, Next::Finish));
    assert!(watch_loop.state().is_complete());
    assert!(watch_loop.state().current().is_none());
}

#[test]
fn catching_up_stops_at_the_first_unsolved_exercise() {
    let state = MultiExerciseState::new(SORT_EXERCISES);
    let (mut watch_loop, _) = WatchLoop::start(state, None);
    let first = take_step(&mut watch_loop, Event::CaughtUp(ran(true)));
    assert!(first.notices.is_empty());
    let second = take_step(&mut watch_loop, Event::CaughtUp(ran(false)));
    assert!(matches!(
        second.notices[..],
        [Notice::CurrentExercise(exercise)] if exercise.name == "insertion_sort"
    ));
    assert!(matches!(second.next, Next::WaitForQuiet));
}

#[test]
fn catching_up_stops_where_the_tests_cannot_be_run() {
    let state = MultiExerciseState::new(SORT_EXERCISES);
    let (mut watch_loop, _) = WatchLoop::start(state, None);
    let reaction = take_step(&mut watch_loop, Event::CaughtUp(None));
    assert!(matches!(
        reaction.notices[..],
        [Notice::CurrentExercise(exercise)] if exercise.name == "bubble_sort"
    ));
    assert!(matches!(reaction.next, Next::WaitForQuiet));
}

#[test]
fn a_passing_save_announces_the_next_exercise() {
    let state = MultiExerciseState::new(SORT_EXERCISES);
    let (mut watch_loop, _) = WatchLoop::start(state, None);
    take_step(&mut watch_loop, Event::CaughtUp(ran(false)));
    let checked = save(&mut watch_loop, ran(true));
    assert!(matches!(
        checked.notices[..],
        [
            Notice::Step(StepOutcome::ExercisePassed { exercise: solved, .. }),
            Notice::CurrentExercise(next),
        ] if solved.name == "bubble_sort" && next.name == "insertion_sort"
    ));
    assert!(matches!(checked.next, Next::WaitForQuiet));
    assert_eq!(watch_loop.state().current().map(|e| e.name), Some("insertion_sort"));
}

#[test]
fn a_run_that_could_not_be_carried_out_counts_but_tells_nothing() {
    let state = MultiExerciseState::new(SORT_EXERCISES);
    let (mut watch_loop, _) = WatchLoop::start(state, Some(2));
    take_step(&mut watch_loop, Event::CaughtUp(ran(false)));
    let first = save(&mut watch_loop, None);
    assert!(first.notices.is_empty());
    assert!(matches!(first.next, Next::WaitForQuiet));
    let second = save(&mut watch_loop, None);
    assert!(second.notices.is_empty());
    assert!(matches!(second.next, Next::Finish));
}

#[test]
fn the_result_for_a_superseded_token_is_discarded() {
    let state = MultiExerciseState::new(SORT_EXERCISES);
    let (mut watch_loop, _) = WatchLoop::start(state, None);
    take_step(&mut watch_loop, Event::CaughtUp(ran(false)));
    save(&mut watch_loop, ran(false));
    let settled = take_step(&mut watch_loop, Event::Quiet);
    assert!(matches!(settled.next, Next::RunTests { token: 2, .. }));
    let late = take_step(&mut watch_loop, Event::Tested { token: 1, outcome: ran(true) });
    assert!(late.notices.is_empty());
    assert!(matches!(late.next, Next::WaitForQuiet));
    assert_eq!(watch_loop.state().current().map(|e| e.name), Some("bubble_sort"));
}

#[test]
fn a_limit_of_zero_lets_no_check_happen() {
    let state = MultiExerciseState::new(SORT_EXERCISES);
    let (mut watch_loop, _) = WatchLoop::start(state, Some(0));
    let ready = take_step(&mut watch_loop, Event::CaughtUp(ran(false)));
    assert!(matches!(
        ready.notices[..],
        [Notice::CurrentExercise(exercise)] if exercise.name == "bubble_sort"
    ));
    assert!(matches!(ready.next, Next::Finish));
    assert!(!watch_loop.accepts(&Event::Quiet));
    assert_eq!(watch_loop.state().current().map(|e| e.name), Some("bubble_sort"));
}

#[test]
fn a_limit_lets_so_many_checks_happen() {
    let state = MultiExerciseState::new(SORT_EXERCISES);
    let (mut watch_loop, _) = WatchLoop::start(state, Some(3));
    take_step(&mut watch_loop, Event::CaughtUp(ran(false)));
    assert!(matches!(save(&mut watch_loop, ran(false)).next, Next::WaitForQuiet));
    assert!(matches!(save(&mut watch_loop, ran(true)).next, Next::WaitForQuiet));
    assert!(matches!(save(&mut watch_loop, ran(false)).next, Next::Finish));
}

#[test]
fn a_newer_save_supersedes_the_run_under_way() {
    let state = MultiExerciseState::new(SORT_EXERCISES);
    let (mut watch_loop, _) = WatchLoop::start(state, None);
    take_step(&mut watch_loop, Event::CaughtUp(ran(false)));
    let settled = take_step(&mut watch_loop, Event::Quiet);
    assert!(matches!(settled.next, Next::RunTests { token: 1, .. }));
    let saved = take_step(&mut watch_loop, Event::Saved);
    assert!(saved.notices.is_empty());
    assert!(matches!(saved.next, Next::AwaitTests));
    let late = take_step(&mut watch_loop, Event::Tested { token: 1, outcome: ran(true) });
    assert!(late.notices.is_empty());
    assert!(matches!(late.next, Next::WaitForQuiet));
    let again = take_step(&mut watch_loop, Event::Quiet);
    assert!(matches!(
        again.next,
        Next::RunTests { exercise, token: 3 } if exercise.name == "bubble_sort"
    ));
    let passed = take_step(&mut watch_loop, Event::Tested { token: 3, outcome: ran(true) });
    assert_eq!(passed.notices.len(), 2);
    assert_eq!(watch_loop.state().current().map(|e| e.name), Some("insertion_sort"));
}

#[test]
fn a_watcher_that_hangs_up_ends_the_loop() {
    let state = MultiExerciseState::new(SORT_EXERCISES);
    let (mut watch_loop, _) = WatchLoop::start(state, None);
    take_step(&mut watch_loop, Event::CaughtUp(ran(false)));
    let reaction = take_step(&mut watch_loop, Event::Disconnected);
    assert!(reaction.notices.is_empty());
    assert!(matches!(reaction.next, Next::Finish));
    assert!(!watch_loop.state().is_complete());
}

#[test]
fn events_out_of_turn_are_not_accepted() {
    let state = MultiExerciseState::new(SORT_EXERCISES);
    let (mut watch_loop, _) = WatchLoop::start(state, None);
    assert!(!watch_loop.accepts(&Event::Quiet));
    assert!(!watch_loop.accepts(&Event::Tested { token: 0, outcome: ran(true) }));
    take_step(&mut watch_loop, Event::CaughtUp(ran(false)));
    assert!(!watch_loop.accepts(&Event::CaughtUp(ran(true))));
    assert!(watch_loop.accepts(&Event::Quiet));
    assert!(!watch_loop.accepts(&Event::Saved));
    take_step(&mut watch_loop, Event::Quiet);
    assert!(!watch_loop.accepts(&Event::Quiet));
    assert!(watch_loop.accepts(&Event::Saved));
    assert!(watch_loop.accepts(&Event::Tested { token: 1, outcome: None }));
}

#[test]
fn checking_moves_on_only_after_a_pass() {
    let mut state = MultiExerciseState::new(SORT_EXERCISES);
    let failed = state.check(TestOutcome { passed: false, output: "no".to_string() });
    assert!(matches!(
        failed,
        StepOutcome::ExerciseFailed { exercise, outcome }
            if exercise.name == "bubble_sort" && outcome.output == "no"
    ));
    assert_eq!(state.current().map(|e| e.name), Some("bubble_sort"));
    let passed = state.check(TestOutcome { passed: true, output: "yes".to_string() });
    assert!(matches!(
        passed,
        StepOutcome::ExercisePassed { exercise, outcome }
            if exercise.name == "bubble_sort" && outcome.output == "yes"
    ));
    assert_eq!(state.current().map(|e| e.name), Some("insertion_sort"));
    assert!(!state.is_complete());
}

#[test]
fn a_failure_is_reported_with_its_output_and_a_hint_prompt() {
    let outcome = TestOutcome { passed: false, output: "test output".to_string() };
    let exercise = &SORT_EXERCISES[0];
    let step = Notice::Step(StepOutcome::ExerciseFailed { exercise, outcome });
    let effects = respond(true, &SORTING, None, 2, step);
    assert!(matches!(
        &effects[..],
        [
            Effect::SeedHints(seeded),
            Effect::Print(status),
            Effect::PrintTestOutput { output, current_file: "bubble.rs" },
            Effect::Print(prompt),
        ] if seeded.name == "bubble_sort"
            && status == "\nbubble_sort — FAILED"
            && output == "test output"
            && prompt == "[h] show hint (type h and press enter)"
    ));
}

#[test]
fn a_pass_clears_the_hints_and_replays_the_trace() {
    let outcome = TestOutcome { passed: true, output: String::new() };
    let exercise = &SORT_EXERCISES[1];
    let step = Notice::Step(StepOutcome::ExercisePassed { exercise, outcome });
    let effects = respond(false, &SORTING, None, 2, step);
    assert!(matches!(
        &effects[..],
        [Effect::ClearHints, Effect::RunTrace { package: "exercises-sort", exercise }]
            if exercise.name == "insertion_sort"
    ));
}

#[test]
fn the_other_notices_are_responded_to() {
    let current = respond(true, &SORTING, None, 2, Notice::CurrentExercise(&SORT_EXERCISES[0]));
    assert!(matches!(
        &current[..],
        [Effect::SeedHints(_), Effect::Print(line)]
            if line == "watching exercises/sort/src/bubble.rs"
    ));
    let settled = respond(true, &SORTING, None, 2, Notice::Settled);
    assert!(matches!(settled[..], [Effect::ShowRunning]));
    let complete = respond(true, &SORTING, Some("flags"), 3, Notice::AllComplete);
    assert!(matches!(
        &complete[..],
        [Effect::ClearHints, Effect::Print(line)]
            if line == "\nsorting exercises complete! Moving on to flags..."
    ));
    let last = respond(true, &FLAGS, None, 3, Notice::AllComplete);
    assert!(matches!(
        &last[..],
        [Effect::ClearHints, Effect::Print(line)]
            if line == "\nAll 3 exercises complete! Nice work."
    ));
}

#[test]
fn a_replayed_trace_is_shown_before_the_verdict() {
    let effects = after_trace(true, &SORT_EXERCISES[0], TraceResult::Replayed);
    assert!(matches!(
        &effects[..],
        [
            Effect::Replay { plain_mode: true, starting_array: [3, 1, 2], .. },
            Effect::Print(status),
            Effect::Print(note),
        ] if status == "\nbubble_sort — PASSED"
            && note == "Each pass carries the largest value to the end."
    ));
    let with_target = after_trace(true, &SORT_EXERCISES[1], TraceResult::Replayed);
    assert!(matches!(
        &with_target[..],
        [
            Effect::Print(banner),
            Effect::Replay { plain_mode: true, starting_array: [], .. },
            Effect::Print(_),
            Effect::Print(_),
        ] if banner == "value: -4"
    ));
}

#[test]
fn a_trace_that_went_wrong_does_not_hide_the_verdict() {
    let exercise = &SORT_EXERCISES[0];
    let panicked = after_trace(true, exercise, TraceResult::Panicked("oops".to_string()));
    assert!(matches!(
        &panicked[..],
        [Effect::Print(note), Effect::Print(_), Effect::Print(_)]
            if note == "note: the trace replay hit a problem after tests passed:\noops"
    ));
    let timed_out = after_trace(true, exercise, TraceResult::TimedOut);
    assert!(matches!(
        &timed_out[..],
        [Effect::Print(note), Effect::Print(_), Effect::Print(_)]
            if note == "note: the trace replay timed out (possible infinite loop) — \
                tests still passed, so this is unexpected."
    ));
    let failed = after_trace(true, exercise, TraceResult::Io("no such file".to_string()));
    assert!(matches!(
        &failed[..],
        [Effect::PrintError(note), Effect::Print(_), Effect::Print(_)]
            if note == "trace replay error: no such file"
    ));
    assert_eq!(replay_failure("no terminal"), "trace renderer error: no terminal");
}

#[test]
fn traces_that_add_the_fixture_start_from_nothing() {
    assert_eq!(starting_array(&SORT_EXERCISES[0]), [3, 1, 2]);
    assert!(starting_array(&SORT_EXERCISES[1]).is_empty());
}

#[test]
fn plain_mode_is_asked_for_or_forced() {
    let asked = vec!["algolings".to_string(), "--plain".to_string()];
    let not_asked = vec!["algolings".to_string(), "--plainer".to_string()];
    assert!(plain_mode(&asked, true));
    assert!(plain_mode(&asked, false));
    assert!(!plain_mode(&not_asked, true));
    assert!(plain_mode(&not_asked, false));
    assert!(!plain_mode(&Vec::new(), true));
}

#[test]
fn modules_are_counted_and_follow_each_other() {
    assert_eq!(total_exercises(&[]), 0);
    assert_eq!(total_exercises(&[SORTING, FLAGS]), 3);
    assert_eq!(next_module_name(&[SORTING, FLAGS], 0), Some("flags"));
    assert_eq!(next_module_name(&[SORTING, FLAGS], 1), None);
}
