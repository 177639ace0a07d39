//! What running a module comes to for the learner, in plain mode and on a terminal
//! alike: which lines they get to read, in which order, and what is shown of a solved
//! exercise.

use crate::line_laws::appears;
use crate::module_run::{Effect, TraceResult, after_trace, replay_failure, respond, starting_array};
use crate::progress::{Exercise, Module, StepOutcome, TestOutcome};
use crate::session::Notice;
use crate::style::{Tone, paints};
use crate::text::{
    a_file_name_is_the_end_of_its_path, decimal_digits, decimal_digits_write_their_number,
    decimal_numbers_write_their_number, writes,
};
use vstd::prelude::*;

verus! {

/// A failing save is answered, in this order, by putting the hints on its exercise, by
/// the verdict that it failed, which is red on a terminal, by what its tests printed,
/// cut down to the file that the learner works on, and by the offer of a hint.
pub proof fn a_failing_save_is_reported_as_failed(
    plain_mode: bool,
    module: &Module,
    next_module_name: Option<&'static str>,
    total_exercises: usize,
    exercise: &'static Exercise,
    outcome: TestOutcome,
    effects: Vec<Effect>,
)
    requires
        call_ensures(
            respond,
            (
                plain_mode,
                module,
                next_module_name,
                total_exercises,
                Notice::Step(StepOutcome::ExerciseFailed { exercise, outcome }),
            ),
            effects,
        ),
    ensures
        effects@.len() == 4,
        effects@[0] matches Effect::SeedHints(hinted) && hinted == exercise,
        effects@[1] matches Effect::Print(status) && appears(
            plain_mode,
            Tone::Red,
            "\n"@,
            exercise.name@ + " — FAILED"@,
            ""@,
            status@,
        ),
        effects@[2] matches Effect::PrintTestOutput { output, current_file } && output
            == outcome.output && !current_file@.contains('/') && ends_path(
            current_file@,
            exercise.skeleton_path@,
        ),
        effects@[3] matches Effect::Print(prompt) && if plain_mode {
            prompt@ == "[h] show hint (type h and press enter)"@
        } else {
            appears(false, Tone::Cyan, ""@, "[h] show hint"@, ""@, prompt@)
        },
{
    reveal_strlit("");
    reveal_strlit(" — FAILED");
    reveal_strlit(" — ");
    reveal_strlit("FAILED");
    assert(exercise.name@ + " — "@ + "FAILED"@ =~= exercise.name@ + " — FAILED"@);
    a_file_name_is_the_end_of_its_path(exercise.skeleton_path@);
    assert(effects@[1] is Print);
    let status = effects@[1]->Print_0@;
    if plain_mode {
        assert(status =~= "\n"@ + (exercise.name@ + " — FAILED"@) + ""@);
    } else {
        let (line, painted): (&str, String) = choose|line: &str, painted: String| #[trigger]
            paints(Tone::Red, line, painted) && line@ == exercise.name@ + " — "@ + "FAILED"@
                && status == "\n"@ + painted@;
        assert(status =~= "\n"@ + painted@ + ""@);
        let prompt = effects@[3]->Print_0@;
        let (line, painted): (&str, String) = choose|line: &str, painted: String| #[trigger]
            paints(Tone::Cyan, line, painted) && line@ == "[h] show hint"@ && prompt == painted@;
        assert(prompt =~= ""@ + painted@ + ""@);
    }
}

/// True if `name` is all of `path`, or what follows one of its slashes.
pub open spec fn ends_path(name: Seq<char>, path: Seq<char>) -> bool {
    let start = path.len() - name.len();
    &&& start >= 0
    &&& path.subrange(start, path.len() as int) == name
    &&& start == 0 || path[start - 1] == '/'
}

/// The learner is told which file to work on, and the hints are put on its exercise.
pub proof fn an_exercise_is_announced_by_its_file(
    plain_mode: bool,
    module: &Module,
    next_module_name: Option<&'static str>,
    total_exercises: usize,
    exercise: &'static Exercise,
    effects: Vec<Effect>,
)
    requires
        call_ensures(
            respond,
            (
                plain_mode,
                module,
                next_module_name,
                total_exercises,
                Notice::CurrentExercise(exercise),
            ),
            effects,
        ),
    ensures
        effects@.len() == 2,
        effects@[0] matches Effect::SeedHints(hinted) && hinted == exercise,
        effects@[1] matches Effect::Print(line) && line@ == "watching "@ + exercise.skeleton_path@,
{
}

/// A settled save shows that tests are running, and a solved exercise has its trace
/// replayed, from the package of its module, with nothing left to hint about.
pub proof fn a_pass_replays_the_trace_of_its_exercise(
    plain_mode: bool,
    module: &Module,
    next_module_name: Option<&'static str>,
    total_exercises: usize,
    exercise: &'static Exercise,
    outcome: TestOutcome,
    settled: Vec<Effect>,
    passed: Vec<Effect>,
)
    requires
        call_ensures(
            respond,
            (plain_mode, module, next_module_name, total_exercises, Notice::Settled),
            settled,
        ),
        call_ensures(
            respond,
            (
                plain_mode,
                module,
                next_module_name,
                total_exercises,
                Notice::Step(StepOutcome::ExercisePassed { exercise, outcome }),
            ),
            passed,
        ),
    ensures
        settled@.len() == 1,
        settled@[0] is ShowRunning,
        passed@.len() == 2,
        passed@[0] is ClearHints,
        passed@[1] matches Effect::RunTrace { package, exercise: replayed } && package
            == module.package && replayed == exercise,
{
}

/// A solved module is announced in green on a terminal, by the name of the module that
/// comes next where one remains, and by how many exercises there were in all where none
/// does. Nothing is left to hint about.
pub proof fn a_solved_module_announces_what_comes_next(
    plain_mode: bool,
    module: &Module,
    next_module_name: Option<&'static str>,
    total_exercises: usize,
    effects: Vec<Effect>,
)
    requires
        call_ensures(
            respond,
            (plain_mode, module, next_module_name, total_exercises, Notice::AllComplete),
            effects,
        ),
    ensures
        effects@.len() == 2,
        effects@[0] is ClearHints,
        effects@[1] matches Effect::Print(message) && match next_module_name {
            Some(next) => appears(
                plain_mode,
                Tone::Green,
                "\n"@,
                module.name@ + " exercises complete! Moving on to "@ + next@ + "..."@,
                ""@,
                message@,
            ),
            None => exists|total: Seq<char>| #[trigger]
                writes(total, total_exercises as int) && appears(
                    plain_mode,
                    Tone::Green,
                    "\n"@,
                    "All "@ + total + " exercises complete! Nice work."@,
                    ""@,
                    message@,
                ),
        },
{
    reveal_strlit("");
    let message = effects@[1]->Print_0@;
    let total = decimal_digits(total_exercises as nat);
    decimal_digits_write_their_number(total_exercises as nat);
    let text = match next_module_name {
        Some(next) => module.name@ + " exercises complete! Moving on to "@ + next@ + "..."@,
        None => "All "@ + total + " exercises complete! Nice work."@,
    };
    if plain_mode {
        assert(message =~= "\n"@ + text + ""@);
    } else {
        let (line, painted): (&str, String) = choose|line: &str, painted: String| #[trigger]
            paints(Tone::Green, line, painted) && line@ == text && message == "\n"@ + painted@;
        assert(message =~= "\n"@ + painted@ + ""@);
    }
    assert(appears(plain_mode, Tone::Green, "\n"@, text, ""@, message));
}

/// The trace of a solved exercise starts from nothing if it adds the fixture's values
/// itself, and from the fixture if it does not.
pub proof fn no_value_of_a_trace_comes_up_twice(exercise: &Exercise, array: &'static [i32])
    requires
        call_ensures(starting_array, (exercise,), array),
    ensures
        exercise.starts_empty ==> array@.len() == 0,
        !exercise.starts_empty ==> array@ == exercise.fixture@,
{
}

/// Whatever became of the trace of a solved exercise, the verdict that it passed, which
/// is green on a terminal, and its lesson come last.
pub proof fn a_solved_exercise_ends_with_its_lesson(
    plain_mode: bool,
    exercise: &'static Exercise,
    trace: TraceResult,
    effects: Vec<Effect>,
)
    requires
        call_ensures(after_trace, (plain_mode, exercise, trace), effects),
    ensures
        effects@.len() == if trace is Replayed && exercise.target is Some {
            4int
        } else {
            3int
        },
        effects@[effects@.len() - 2] matches Effect::Print(status) && appears(
            plain_mode,
            Tone::Green,
            "\n"@,
            exercise.name@ + " — PASSED"@,
            ""@,
            status@,
        ),
        effects@[effects@.len() - 1] matches Effect::Print(lesson) && if plain_mode {
            lesson@ == exercise.concept_note@
        } else {
            appears(
                false,
                Tone::Magenta,
                ""@,
                "lesson:"@,
                " "@ + exercise.concept_note@,
                lesson@,
            )
        },
{
    reveal_strlit("");
    reveal_strlit(" — PASSED");
    reveal_strlit(" — ");
    reveal_strlit("PASSED");
    assert(exercise.name@ + " — "@ + "PASSED"@ =~= exercise.name@ + " — PASSED"@);
    let status = effects@[effects@.len() - 2]->Print_0@;
    if plain_mode {
        assert(status =~= "\n"@ + (exercise.name@ + " — PASSED"@) + ""@);
    } else {
        let (line, painted): (&str, String) = choose|line: &str, painted: String| #[trigger]
            paints(Tone::Green, line, painted) && line@ == exercise.name@ + " — "@ + "PASSED"@
                && status == "\n"@ + painted@;
        assert(status =~= "\n"@ + painted@ + ""@);
        let lesson = effects@[effects@.len() - 1]->Print_0@;
        let (label, painted): (&str, String) = choose|label: &str, painted: String| #[trigger]
            paints(Tone::Magenta, label, painted) && label@ == "lesson:"@ && lesson == painted@
                + " "@ + exercise.concept_note@;
        assert(lesson =~= ""@ + painted@ + (" "@ + exercise.concept_note@));
    }
}

/// A trace that could be replayed is shown for its exercise, in the mode that the
/// program is in, from its starting picture, and below the value that the exercise works
/// with, if there is one.
pub proof fn a_replayed_trace_is_shown_from_its_start(
    plain_mode: bool,
    exercise: &'static Exercise,
    effects: Vec<Effect>,
)
    requires
        call_ensures(after_trace, (plain_mode, exercise, TraceResult::Replayed), effects),
    ensures
        effects@[effects@.len() - 3] matches Effect::Replay {
            plain_mode: plain,
            starting_array,
            exercise: replayed,
        } && plain == plain_mode && *replayed == *exercise && starting_array@.len()
            == if exercise.starts_empty {
            0
        } else {
            exercise.fixture@.len()
        } && (!exercise.starts_empty ==> starting_array@ == exercise.fixture@),
        exercise.target matches Some(value) ==> (effects@[0] matches Effect::Print(banner)
            && exists|number: Seq<char>| #[trigger]
            writes(number, value as int) && banner@ == "value: "@ + number),
{
    let shown = effects@.len() - 2;
    assert(effects@.take(shown).last() == effects@[shown - 1]);
    if let Some(value) = exercise.target {
        decimal_numbers_write_their_number(value as int);
        assert(effects@.take(shown)[0] == effects@[0]);
    }
}

/// A trace that could not be replayed is no secret: the learner is told what went wrong
/// with it, and with whose words.
pub proof fn a_trace_that_went_wrong_is_told(
    plain_mode: bool,
    exercise: &'static Exercise,
    trace: TraceResult,
    effects: Vec<Effect>,
)
    requires
        call_ensures(after_trace, (plain_mode, exercise, trace), effects),
    ensures
        match trace {
            TraceResult::Replayed => true,
            TraceResult::Panicked(message) => effects@[0] matches Effect::Print(line) && line@
                == "note: the trace replay hit a problem after tests passed:\n"@ + message@,
            TraceResult::TimedOut => effects@[0] matches Effect::Print(line) && line@
                == "note: the trace replay timed out (possible infinite loop) — tests still passed, so this is unexpected."@,
            TraceResult::Io(reason) => effects@[0] matches Effect::PrintError(line) && line@
                == "trace replay error: "@ + reason@,
        },
{
    assert(effects@.take(effects@.len() - 2)[0] == effects@[0] || trace is Replayed);
}

/// A trace that could not be shown is told in the words of what went wrong.
pub proof fn a_trace_that_was_not_shown_is_told(reason: &str, line: String)
    requires
        call_ensures(replay_failure, (reason,), line),
    ensures
        line@ == "trace renderer error: "@ + reason@,
{
}

/// The two modes differ in how things are shown, never in what is done: a trace is
/// replayed for the same exercise and from the same array in both, and what is told
/// about it is the same.
pub proof fn both_modes_show_the_same_trace(
    exercise: &'static Exercise,
    trace: TraceResult,
    plain: Vec<Effect>,
    styled: Vec<Effect>,
)
    requires
        call_ensures(after_trace, (true, exercise, trace), plain),
        call_ensures(after_trace, (false, exercise, trace), styled),
    ensures
        plain@.len() == styled@.len(),
        forall|i: int|
            0 <= i < plain@.len() - 2 ==> match ((#[trigger] plain@[i]), styled@[i]) {
                (Effect::Print(left), Effect::Print(right)) => left@ == right@,
                (Effect::PrintError(left), Effect::PrintError(right)) => left@ == right@,
                (
                    Effect::Replay { starting_array: left, exercise: one, .. },
                    Effect::Replay { starting_array: right, exercise: other, .. },
                ) => left@ == right@ && *one == *other,
                _ => false,
            },
{
    let shown = plain@.len() - 2;
    assert forall|i: int| 0 <= i < shown implies plain@.take(shown)[i] == #[trigger] plain@[i]
        && styled@.take(shown)[i] == styled@[i] by {}
    assert(plain@.take(shown).last() == plain@[shown - 1]);
    assert(styled@.take(shown).last() == styled@[shown - 1]);
    assert(plain@[0] == plain@.take(shown)[0]);
}

} // verus!
