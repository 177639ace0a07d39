//! How a module is run: what is done about each thing that the watch loop has to
//! tell, from a failing save to the last solved exercise.

use crate::progress::{Exercise, Module, StepOutcome};
use crate::report::{
    completion_line, completion_message, completion_text, concept_note_line, hint_prompt,
    shows_completion, shows_concept_note, shows_hint_prompt, shows_status, status_line,
    value_banner, watching_line,
};
use crate::session::Notice;
use crate::text::{decimal_number, file_name, file_name_of};
use vstd::prelude::*;
use vstd::string::*;

verus! {

/// One thing to do.
#[derive(Debug)]
pub enum Effect {
    /// Put the hint tracker on the exercise.
    SeedHints(&'static Exercise),
    /// Leave the hint tracker with nothing to hint about.
    ClearHints,
    /// Print a line.
    Print(String),
    /// Print a line to standard error.
    PrintError(String),
    /// Show that tests are running.
    ShowRunning,
    /// Print what a test run printed, cut down to what concerns `current_file`.
    PrintTestOutput { output: String, current_file: &'static str },
    /// Replay the trace of a solved exercise, and go on with `after_trace`.
    RunTrace { package: &'static str, exercise: &'static Exercise },
    /// Show the events of the trace, which start from `starting_array`: as text in
    /// plain mode, else step by step.
    Replay {
        plain_mode: bool,
        starting_array: &'static [i32],
        exercise: &'static Exercise,
    },
}

/// What replaying the trace of a solved exercise came to.
#[derive(Debug)]
pub enum TraceResult {
    /// There are events to show.
    Replayed,
    /// The replay panicked with this message.
    Panicked(String),
    TimedOut,
    /// The replay could not be carried out, for this reason.
    Io(String),
}

/// True if `effect` prints `line`.
pub open spec fn prints(effect: Effect, line: Seq<char>) -> bool {
    effect matches Effect::Print(printed) && printed@ == line
}

/// True if `effects` is what is done about `notice`.
pub open spec fn responds(
    plain_mode: bool,
    module: Module,
    next_module_name: Option<&'static str>,
    total_exercises: nat,
    notice: Notice,
    effects: Seq<Effect>,
) -> bool {
    match notice {
        Notice::CurrentExercise(exercise) => {
            &&& effects.len() == 2
            &&& effects[0] == Effect::SeedHints(exercise)
            &&& prints(effects[1], "watching "@ + exercise.skeleton_path@)
        },
        Notice::Settled => effects == seq![Effect::ShowRunning],
        Notice::Step(StepOutcome::ExerciseFailed { exercise, outcome }) => {
            &&& effects.len() == 4
            &&& effects[0] == Effect::SeedHints(exercise)
            &&& effects[1] matches Effect::Print(status) && shows_status(
                plain_mode,
                exercise.name@,
                false,
                status@,
            )
            &&& effects[2] matches Effect::PrintTestOutput { output, current_file } && output
                == outcome.output && current_file@ == file_name_of(exercise.skeleton_path@)
            &&& effects[3] matches Effect::Print(prompt) && shows_hint_prompt(plain_mode, prompt@)
        },
        Notice::Step(StepOutcome::ExercisePassed { exercise, .. }) => effects == seq![
            Effect::ClearHints,
            Effect::RunTrace { package: module.package, exercise },
        ],
        Notice::AllComplete => {
            &&& effects.len() == 2
            &&& effects[0] == Effect::ClearHints
            &&& effects[1] matches Effect::Print(message) && shows_completion(
                plain_mode,
                completion_text(module.name@, next_module_name, total_exercises),
                message@,
            )
        },
    }
}

/// What is done, in order, about something that the watch loop of `module` has to
/// tell.
///
/// The hint tracker is put on an exercise as soon as the learner is on it, not only
/// when it fails: a learner who has just arrived can ask for its first hint.
pub fn respond(
    plain_mode: bool,
    module: &Module,
    next_module_name: Option<&'static str>,
    total_exercises: usize,
    notice: Notice,
) -> (effects: Vec<Effect>)
    ensures
        responds(
            plain_mode,
            *module,
            next_module_name,
            total_exercises as nat,
            notice,
            effects@,
        ),
{
    let mut effects: Vec<Effect> = Vec::new();
    match notice {
        Notice::CurrentExercise(exercise) => {
            effects.push(Effect::SeedHints(exercise));
            effects.push(Effect::Print(watching_line(exercise.skeleton_path)));
        },
        Notice::Settled => {
            effects.push(Effect::ShowRunning);
            assert(effects@ =~= seq![Effect::ShowRunning]);
        },
        Notice::Step(StepOutcome::ExerciseFailed { exercise, outcome }) => {
            let current_file = file_name(exercise.skeleton_path);
            effects.push(Effect::SeedHints(exercise));
            effects.push(Effect::Print(status_line(plain_mode, exercise.name, false)));
            effects.push(Effect::PrintTestOutput { output: outcome.output, current_file });
            effects.push(Effect::Print(hint_prompt(plain_mode)));
        },
        Notice::Step(StepOutcome::ExercisePassed { exercise, .. }) => {
            effects.push(Effect::ClearHints);
            effects.push(Effect::RunTrace { package: module.package, exercise });
            assert(effects@ =~= seq![
                Effect::ClearHints,
                Effect::RunTrace { package: module.package, exercise },
            ]);
        },
        Notice::AllComplete => {
            let message = completion_message(module.name, next_module_name, total_exercises);
            effects.push(Effect::ClearHints);
            effects.push(Effect::Print(completion_line(plain_mode, message.as_str())));
        },
    }
    effects
}

/// The array that the trace of `exercise` starts from. A trace that itself adds the
/// fixture's values starts from nothing, or they would come up twice.
pub fn starting_array(exercise: &Exercise) -> (array: &'static [i32])
    ensures
        array@ == if exercise.starts_empty {
            seq![]
        } else {
            exercise.fixture@
        },
{
    if exercise.starts_empty {
        &[]
    } else {
        exercise.fixture
    }
}

/// True if `effects` is what is done about the replayed trace itself.
pub open spec fn shows_trace(
    plain_mode: bool,
    exercise: Exercise,
    trace: TraceResult,
    effects: Seq<Effect>,
) -> bool {
    match trace {
        TraceResult::Replayed => {
            &&& effects.len() == if exercise.target is Some {
                2int
            } else {
                1int
            }
            &&& exercise.target matches Some(value) ==> prints(
                effects[0],
                "value: "@ + decimal_number(value as int),
            )
            &&& effects.last() matches Effect::Replay {
                plain_mode: plain,
                starting_array,
                exercise: replayed,
            } && plain == plain_mode && *replayed == exercise && starting_array@
                == if exercise.starts_empty {
                seq![]
            } else {
                exercise.fixture@
            }
        },
        TraceResult::Panicked(message) => effects.len() == 1 && prints(
            effects[0],
            "note: the trace replay hit a problem after tests passed:\n"@ + message@,
        ),
        TraceResult::TimedOut => effects.len() == 1 && prints(
            effects[0],
            "note: the trace replay timed out (possible infinite loop) — tests still passed, so this is unexpected."@,
        ),
        TraceResult::Io(reason) => {
            &&& effects.len() == 1
            &&& effects[0] matches Effect::PrintError(line) && line@ == "trace replay error: "@
                + reason@
        },
    }
}

/// True if `effects` is what is done about a solved exercise once its trace has been
/// replayed: the trace is shown, and the verdict and the lesson follow whatever
/// became of it.
pub open spec fn follows_trace(
    plain_mode: bool,
    exercise: Exercise,
    trace: TraceResult,
    effects: Seq<Effect>,
) -> bool {
    let shown = effects.len() - 2;
    &&& shown >= 0
    &&& shows_trace(plain_mode, exercise, trace, effects.take(shown))
    &&& effects[shown] matches Effect::Print(status) && shows_status(
        plain_mode,
        exercise.name@,
        true,
        status@,
    )
    &&& effects[shown + 1] matches Effect::Print(note) && shows_concept_note(
        plain_mode,
        exercise.concept_note@,
        note@,
    )
}

/// What is done, in order, about a solved exercise once its trace has been replayed.
pub fn after_trace(plain_mode: bool, exercise: &'static Exercise, trace: TraceResult) -> (effects:
    Vec<Effect>)
    ensures
        follows_trace(plain_mode, *exercise, trace, effects@),
{
    let mut effects: Vec<Effect> = Vec::new();
    match trace {
        TraceResult::Replayed => {
            if let Some(value) = exercise.target {
                effects.push(Effect::Print(value_banner(value)));
            }
            let starting_array = starting_array(exercise);
            effects.push(Effect::Replay { plain_mode, starting_array, exercise });
        },
        TraceResult::Panicked(message) => {
            let mut line =
                "note: the trace replay hit a problem after tests passed:\n".to_owned();
            line.append(message.as_str());
            effects.push(Effect::Print(line));
        },
        TraceResult::TimedOut => {
            effects.push(
                Effect::Print(
                    "note: the trace replay timed out (possible infinite loop) — tests still passed, so this is unexpected.".to_owned(),
                ),
            );
        },
        TraceResult::Io(reason) => {
            let mut line = "trace replay error: ".to_owned();
            line.append(reason.as_str());
            effects.push(Effect::PrintError(line));
        },
    }
    let ghost shown = effects@;
    assert(shows_trace(plain_mode, *exercise, trace, shown));
    effects.push(Effect::Print(status_line(plain_mode, exercise.name, true)));
    effects.push(Effect::Print(concept_note_line(plain_mode, exercise.concept_note)));
    assert(effects@.take(effects@.len() - 2) == shown);
    effects
}

/// The line about a trace that could not be shown.
pub fn replay_failure(reason: &str) -> (line: String)
    ensures
        line@ == "trace renderer error: "@ + reason@,
{
    let mut line = "trace renderer error: ".to_owned();
    line.append(reason);
    line
}

} // verus!
