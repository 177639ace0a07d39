//! What holds of everything that the learner sees, and of the hints that they can
//! ask for meanwhile.

use crate::hints::HintView;
use crate::module_run::{Effect, TraceResult, follows_trace, responds};
use crate::progress::{Exercise, Module, StepOutcome};
use crate::report::{
    asks_for_hint, completion_text, shows_completion, shows_concept_note, shows_hint, shows_status,
    verdict, verdict_tone,
};
use crate::session::{Event, LoopView, Notice, Phase};
use crate::session_laws::{catching_up_finds_the_first_unsolved, heard, reports_pass};
use crate::style::{
    Console, Tone, color_code, is_bold, painted_text_is_bold, paints, rendering,
};
use crate::text::{decimal_digits, decimal_digits_are_digits, decimal_number};
use vstd::prelude::*;

verus! {

/// True if `text` holds no escape character, and so no color or other styling.
pub open spec fn unstyled(text: Seq<char>) -> bool {
    !text.contains('\u{1b}')
}

/// True if none of the texts of `exercise` that are printed is styled by itself.
pub open spec fn unstyled_exercise(exercise: Exercise) -> bool {
    &&& unstyled(exercise.name@)
    &&& unstyled(exercise.skeleton_path@)
    &&& unstyled(exercise.concept_note@)
}

/// True if the exercise that `notice` speaks of, if any, is unstyled.
pub open spec fn unstyled_notice(notice: Notice) -> bool {
    match notice {
        Notice::CurrentExercise(exercise) => unstyled_exercise(*exercise),
        Notice::Step(StepOutcome::ExerciseFailed { exercise, .. }) => unstyled_exercise(*exercise),
        Notice::Step(StepOutcome::ExercisePassed { exercise, .. }) => unstyled_exercise(*exercise),
        _ => true,
    }
}

/// True if nothing that `effect` prints is styled.
pub open spec fn prints_unstyled(effect: Effect) -> bool {
    match effect {
        Effect::Print(line) => unstyled(line@),
        Effect::PrintError(line) => unstyled(line@),
        _ => true,
    }
}

pub(crate) proof fn joined_text_is_unstyled(left: Seq<char>, right: Seq<char>)
    requires
        unstyled(left),
        unstyled(right),
    ensures
        unstyled(left + right),
{
    let joined = left + right;
    if joined.contains('\u{1b}') {
        let i = choose|i: int| 0 <= i < joined.len() && joined[i] == '\u{1b}';
        if i < left.len() {
            assert(left[i] == '\u{1b}');
        } else {
            assert(right[i - left.len()] == '\u{1b}');
        }
    }
}

proof fn numbers_are_unstyled(value: int)
    ensures
        unstyled(decimal_number(value)),
        value >= 0 ==> unstyled(decimal_digits(value as nat)),
{
    let magnitude = if value < 0 {
        (-value) as nat
    } else {
        value as nat
    };
    decimal_digits_are_digits(magnitude);
    assert(unstyled(decimal_digits(magnitude)));
    joined_text_is_unstyled(seq!['-'], decimal_digits(magnitude));
}

/// In plain mode nothing that is printed about the progress through a module is
/// styled.
pub proof fn plain_responses_are_unstyled(
    module: Module,
    next_module_name: Option<&'static str>,
    total_exercises: nat,
    notice: Notice,
    effects: Seq<Effect>,
)
    requires
        responds(true, module, next_module_name, total_exercises, notice, effects),
        unstyled(module.name@),
        next_module_name matches Some(next) ==> unstyled(next@),
        unstyled_notice(notice),
    ensures
        forall|i: int| 0 <= i < effects.len() ==> prints_unstyled(#[trigger] effects[i]),
{
    reveal_strlit("watching ");
    reveal_strlit("\n");
    reveal_strlit(" — ");
    reveal_strlit("FAILED");
    reveal_strlit("[h] show hint (type h and press enter)");
    reveal_strlit(" exercises complete! Moving on to ");
    reveal_strlit("...");
    reveal_strlit("All ");
    reveal_strlit(" exercises complete! Nice work.");
    match notice {
        Notice::CurrentExercise(exercise) => {
            joined_text_is_unstyled("watching "@, exercise.skeleton_path@);
        },
        Notice::Step(StepOutcome::ExerciseFailed { exercise, outcome }) => {
            joined_text_is_unstyled(exercise.name@, " — "@);
            joined_text_is_unstyled(exercise.name@ + " — "@, "FAILED"@);
            joined_text_is_unstyled("\n"@, verdict(exercise.name@, false));
            assert(unstyled("[h] show hint (type h and press enter)"@));
        },
        Notice::AllComplete => {
            let message = completion_text(module.name@, next_module_name, total_exercises);
            match next_module_name {
                Some(next) => {
                    let moving = " exercises complete! Moving on to "@;
                    joined_text_is_unstyled(module.name@, moving);
                    joined_text_is_unstyled(module.name@ + moving, next@);
                    joined_text_is_unstyled(module.name@ + moving + next@, "..."@);
                },
                None => {
                    let total = decimal_digits(total_exercises);
                    numbers_are_unstyled(total_exercises as int);
                    joined_text_is_unstyled("All "@, total);
                    joined_text_is_unstyled("All "@ + total, " exercises complete! Nice work."@);
                },
            }
            joined_text_is_unstyled("\n"@, message);
        },
        _ => {},
    }
}

/// In plain mode nothing that is printed about a solved exercise is styled.
pub proof fn plain_traces_are_unstyled(
    exercise: Exercise,
    trace: TraceResult,
    effects: Seq<Effect>,
)
    requires
        follows_trace(true, exercise, trace, effects),
        unstyled_exercise(exercise),
        trace matches TraceResult::Panicked(message) ==> unstyled(message@),
        trace matches TraceResult::Io(reason) ==> unstyled(reason@),
    ensures
        forall|i: int| 0 <= i < effects.len() ==> prints_unstyled(#[trigger] effects[i]),
{
    let shown = effects.len() - 2;
    reveal_strlit("\n");
    reveal_strlit(" — ");
    reveal_strlit("PASSED");
    reveal_strlit("value: ");
    reveal_strlit("note: the trace replay hit a problem after tests passed:\n");
    reveal_strlit(
        "note: the trace replay timed out (possible infinite loop) — tests still passed, so this is unexpected.",
    );
    reveal_strlit("trace replay error: ");
    joined_text_is_unstyled(exercise.name@, " — "@);
    joined_text_is_unstyled(exercise.name@ + " — "@, "PASSED"@);
    joined_text_is_unstyled("\n"@, verdict(exercise.name@, true));
    assert(forall|i: int| 0 <= i < shown ==> effects.take(shown)[i] == effects[i]);
    match trace {
        TraceResult::Replayed => {
            if let Some(value) = exercise.target {
                numbers_are_unstyled(value as int);
                joined_text_is_unstyled("value: "@, decimal_number(value as int));
            }
        },
        TraceResult::Panicked(message) => {
            joined_text_is_unstyled(
                "note: the trace replay hit a problem after tests passed:\n"@,
                message@,
            );
        },
        TraceResult::TimedOut => {},
        TraceResult::Io(reason) => {
            joined_text_is_unstyled("trace replay error: "@, reason@);
        },
    }
}

/// In plain mode a hint is not styled, and neither is the regret that there is none.
pub proof fn plain_hints_are_unstyled(hint: Option<&'static str>, shown: Seq<char>)
    requires
        shows_hint(true, hint, shown),
        hint matches Some(text) ==> unstyled(text@),
    ensures
        unstyled(shown),
{
    reveal_strlit("hint:");
    reveal_strlit(" ");
    reveal_strlit("no more hints for this exercise (or nothing to hint about right now)");
    if let Some(text) = hint {
        joined_text_is_unstyled("hint:"@, " "@);
        joined_text_is_unstyled("hint:"@ + " "@, text@);
    }
}

/// The hint tracker after `effects`.
pub open spec fn hints_after(hints: HintView, effects: Seq<Effect>) -> HintView
    decreases effects.len(),
{
    if effects.len() == 0 {
        hints
    } else {
        let before = hints_after(hints, effects.drop_last());
        match effects.last() {
            Effect::SeedHints(exercise) => before.on(*exercise),
            Effect::ClearHints => HintView { current: None, shown: 0 },
            _ => before,
        }
    }
}

proof fn only_the_first_effect_moves_hints(hints: HintView, effects: Seq<Effect>)
    requires
        effects.len() > 0,
        forall|i: int|
            1 <= i < effects.len() ==> !((#[trigger] effects[i]) is SeedHints)
                && !(effects[i] is ClearHints),
    ensures
        hints_after(hints, effects) == hints_after(hints, effects.take(1)),
    decreases effects.len(),
{
    if effects.len() == 1 {
        assert(effects.take(1) == effects);
    } else {
        assert(effects.drop_last().take(1) == effects.take(1));
        assert(effects.last() == effects[effects.len() - 1]);
        only_the_first_effect_moves_hints(hints, effects.drop_last());
    }
}

/// The hint tracker is on an exercise from when the learner is on it, and a failing
/// save leaves it there. A pass, and the end of the module, leave nothing to hint
/// about.
pub proof fn hints_follow_the_learner(
    plain_mode: bool,
    module: Module,
    next_module_name: Option<&'static str>,
    total_exercises: nat,
    notice: Notice,
    effects: Seq<Effect>,
    hints: HintView,
)
    requires
        responds(plain_mode, module, next_module_name, total_exercises, notice, effects),
    ensures
        hints_after(hints, effects) == match notice {
            Notice::CurrentExercise(exercise) => hints.on(*exercise),
            Notice::Step(StepOutcome::ExerciseFailed { exercise, .. }) => hints.on(*exercise),
            Notice::Step(StepOutcome::ExercisePassed { .. }) => HintView {
                current: None,
                shown: 0,
            },
            Notice::AllComplete => HintView { current: None, shown: 0 },
            Notice::Settled => hints,
        },
{
    only_the_first_effect_moves_hints(hints, effects);
    let first = effects.take(1);
    assert(first.drop_last() =~= seq![]);
    assert(first.last() == effects[0]);
    assert(hints_after(hints, first.drop_last()) == hints);
}

/// A learner whose earlier work brings them, by catching up, to an exercise with
/// hints can have its first hint at once: no save is needed.
pub proof fn a_hint_is_ready_before_any_save(
    view: LoopView,
    events: Seq<Event>,
    solved: nat,
    plain_mode: bool,
    module: Module,
    next_module_name: Option<&'static str>,
    total_exercises: nat,
    effects: Seq<Effect>,
)
    requires
        view.well_formed(),
        view.phase == Phase::CatchingUp,
        view.position + solved < view.exercises.len(),
        events.len() == solved + 1,
        forall|i: int| 0 <= i < events.len() ==> (#[trigger] events[i]) is CaughtUp,
        forall|i: int| 0 <= i < solved ==> reports_pass(#[trigger] events[i]),
        !reports_pass(events[solved as int]),
        view.exercises[(view.position + solved) as int].hints@.len() > 0,
        responds(
            plain_mode,
            module,
            next_module_name,
            total_exercises,
            heard(view, events)[0],
            effects,
        ),
    ensures
        heard(view, events).len() == 1,
        hints_after(HintView { current: None, shown: 0 }, effects).hint() == Some(
            view.exercises[(view.position + solved) as int].hints@[0],
        ),
{
    catching_up_finds_the_first_unsolved(view, events, solved);
    hints_follow_the_learner(
        plain_mode,
        module,
        next_module_name,
        total_exercises,
        heard(view, events)[0],
        effects,
        HintView { current: None, shown: 0 },
    );
}

/// `text` without its escape sequences, each of which runs from an escape character
/// to the next `m`. `inside` tells whether `text` begins within one.
pub open spec fn stripped_from(text: Seq<char>, inside: bool) -> Seq<char>
    decreases text.len(),
{
    if text.len() == 0 {
        seq![]
    } else if inside {
        stripped_from(text.drop_first(), text[0] != 'm')
    } else if text[0] == '\u{1b}' {
        stripped_from(text.drop_first(), true)
    } else {
        seq![text[0]] + stripped_from(text.drop_first(), false)
    }
}

/// What is left to read of `text` once its styling is taken away.
pub open spec fn stripped(text: Seq<char>) -> Seq<char> {
    stripped_from(text, false)
}

pub(crate) proof fn stripping_keeps_unstyled_text(text: Seq<char>, rest: Seq<char>)
    requires
        unstyled(text),
    ensures
        stripped(text + rest) == text + stripped(rest),
    decreases text.len(),
{
    if text.len() == 0 {
        assert(text + rest =~= rest);
        assert(text + stripped(rest) =~= stripped(rest));
    } else {
        let shorter = text.drop_first();
        assert(text[0] != '\u{1b}');
        assert(unstyled(shorter)) by {
            if shorter.contains('\u{1b}') {
                let i = choose|i: int| 0 <= i < shorter.len() && shorter[i] == '\u{1b}';
                assert(text[i + 1] == '\u{1b}');
            }
        }
        stripping_keeps_unstyled_text(shorter, rest);
        assert((text + rest).drop_first() =~= shorter + rest);
        assert(seq![text[0]] + (shorter + stripped(rest)) =~= text + stripped(rest));
    }
}

proof fn stripping_ends_a_sequence(parameters: Seq<char>, rest: Seq<char>)
    requires
        !parameters.contains('m'),
    ensures
        stripped_from(parameters + seq!['m'] + rest, true) == stripped(rest),
    decreases parameters.len(),
{
    let text = parameters + seq!['m'] + rest;
    if parameters.len() == 0 {
        assert(text.drop_first() =~= rest);
    } else {
        let shorter = parameters.drop_first();
        assert(!shorter.contains('m')) by {
            if shorter.contains('m') {
                let i = choose|i: int| 0 <= i < shorter.len() && shorter[i] == 'm';
                assert(parameters[i + 1] == 'm');
            }
        }
        assert(parameters[0] != 'm');
        stripping_ends_a_sequence(shorter, rest);
        assert(text.drop_first() =~= shorter + seq!['m'] + rest);
    }
}

proof fn stripping_removes_a_sequence(parameters: Seq<char>, rest: Seq<char>)
    requires
        !parameters.contains('m'),
    ensures
        stripped(seq!['\u{1b}'] + parameters + seq!['m'] + rest) == stripped(rest),
{
    let text = seq!['\u{1b}'] + parameters + seq!['m'] + rest;
    assert(text.drop_first() =~= parameters + seq!['m'] + rest);
    stripping_ends_a_sequence(parameters, rest);
}

/// A painted text reads as what it was before, on every console that understands
/// escape sequences.
pub proof fn a_rendering_reads_as_its_text(
    console: Console,
    tone: Tone,
    text: Seq<char>,
    rest: Seq<char>,
)
    requires
        !(console is Legacy),
        unstyled(text),
    ensures
        stripped(rendering(console, color_code(tone), text) + rest) == text + stripped(rest),
{
    reveal_strlit("\u{1b}[");
    reveal_strlit("m\u{1b}[1m");
    reveal_strlit("\u{1b}[m\u{1b}[1m");
    reveal_strlit("\u{1b}[0m");
    reveal_strlit("38;5;10");
    reveal_strlit("38;5;9");
    reveal_strlit("38;5;14");
    reveal_strlit("38;5;13");
    reveal_strlit("38;5;11");
    let escape = seq!['\u{1b}'];
    let end = seq!['m'];
    let color = seq!['['] + if console is Colored {
        color_code(tone)
    } else {
        seq![]
    };
    let bold = seq!['[', '1'];
    let reset = seq!['[', '0'];
    let tail = escape + reset + end + rest;
    let shown = escape + bold + end + (text + tail);
    assert(!color.contains('m'));
    assert(!bold.contains('m'));
    assert(!reset.contains('m'));
    stripping_removes_a_sequence(color, shown);
    stripping_removes_a_sequence(bold, text + tail);
    stripping_keeps_unstyled_text(text, tail);
    stripping_removes_a_sequence(reset, rest);
    assert(rendering(console, color_code(tone), text) + rest =~= escape + color + end + shown);
}

/// What is painted and what follows it read as the two texts, unless the console
/// understands no escape sequences, where what is painted comes out empty.
pub(crate) proof fn painted_text_reads_as_it_was(
    tone: Tone,
    text: &str,
    painted: String,
    rest: Seq<char>,
) -> (console: Console)
    requires
        paints(tone, text, painted),
        unstyled(text@),
        painted@.len() > 0,
    ensures
        painted@ == rendering(console, color_code(tone), text@),
        !(console is Legacy),
        stripped(painted@ + rest) == text@ + stripped(rest),
{
    painted_text_is_bold(tone, text, painted);
    let console = choose|console: Console|
        painted@ == #[trigger] rendering(console, color_code(tone), text@);
    a_rendering_reads_as_its_text(console, tone, text@, rest);
    console
}

pub(crate) proof fn unstyled_text_stays(text: Seq<char>)
    requires
        unstyled(text),
    ensures
        stripped(text) == text,
{
    stripping_keeps_unstyled_text(text, seq![]);
    assert(text + Seq::<char>::empty() =~= text);
    assert(stripped(Seq::<char>::empty()) =~= seq![]);
}

proof fn verdicts_are_unstyled(exercise_name: Seq<char>, passed: bool)
    requires
        unstyled(exercise_name),
    ensures
        unstyled(verdict(exercise_name, passed)),
        unstyled("\n"@),
        unstyled("\n"@ + verdict(exercise_name, passed)),
{
    reveal_strlit("\n");
    reveal_strlit(" — ");
    reveal_strlit("PASSED");
    reveal_strlit("FAILED");
    joined_text_is_unstyled(exercise_name, " — "@);
    joined_text_is_unstyled(
        exercise_name + " — "@,
        if passed {
            "PASSED"@
        } else {
            "FAILED"@
        },
    );
    joined_text_is_unstyled("\n"@, verdict(exercise_name, passed));
}

/// The verdict on an exercise reads the same in either mode: in plain mode it is not
/// styled at all, and otherwise it is bold, green for a pass and red for a failure.
/// Left out is a console that understands no escape sequences, which shows an empty
/// line.
pub proof fn a_verdict_reads_the_same_in_either_mode(
    exercise_name: Seq<char>,
    passed: bool,
    plain: Seq<char>,
    shown: Seq<char>,
)
    requires
        unstyled(exercise_name),
        shows_status(true, exercise_name, passed, plain),
        shows_status(false, exercise_name, passed, shown),
        shown != "\n"@,
    ensures
        unstyled(plain),
        stripped(shown) == plain,
        exists|styled: Seq<char>|
            shown == "\n"@ + styled && #[trigger] is_bold(
                styled,
                color_code(verdict_tone(passed)),
                verdict(exercise_name, passed),
            ),
{
    verdicts_are_unstyled(exercise_name, passed);
    let (line, painted): (&str, String) = choose|line: &str, painted: String| #[trigger]
        paints(verdict_tone(passed), line, painted) && line@ == verdict(exercise_name, passed)
            && shown == "\n"@ + painted@;
    assert(painted@.len() > 0) by {
        if painted@.len() == 0 {
            assert("\n"@ + painted@ =~= "\n"@);
        }
    }
    painted_text_is_bold(verdict_tone(passed), line, painted);
    let console = painted_text_reads_as_it_was(verdict_tone(passed), line, painted, seq![]);
    stripping_keeps_unstyled_text("\n"@, painted@);
    assert(painted@ + Seq::<char>::empty() =~= painted@);
    assert(line@ + stripped(Seq::<char>::empty()) =~= line@);
}

/// The lesson of a solved exercise reads as its label and the note, of which only
/// the label is styled; in plain mode it is the note alone. Left out is a console that
/// understands no escape sequences, which does not show the label.
pub proof fn a_lesson_reads_as_its_label_and_note(
    note: Seq<char>,
    plain: Seq<char>,
    shown: Seq<char>,
)
    requires
        unstyled(note),
        shows_concept_note(true, note, plain),
        shows_concept_note(false, note, shown),
        shown != " "@ + note,
    ensures
        plain == note,
        stripped(shown) == "lesson:"@ + " "@ + note,
        exists|label: Seq<char>|
            shown == label + " "@ + note && #[trigger] is_bold(
                label,
                color_code(Tone::Magenta),
                "lesson:"@,
            ),
{
    reveal_strlit("lesson:");
    let (label, painted): (&str, String) = choose|label: &str, painted: String| #[trigger]
        paints(Tone::Magenta, label, painted) && label@ == "lesson:"@ && shown == painted@ + " "@
            + note;
    painted_text_is_bold(Tone::Magenta, label, painted);
    a_label_reads_as_it_was(Tone::Magenta, label, painted, note, shown);
}

/// A hint reads the same in either mode. Left out is a console that understands no
/// escape sequences, which does not show the label.
pub proof fn a_hint_reads_the_same_in_either_mode(
    hint: Option<&'static str>,
    plain: Seq<char>,
    shown: Seq<char>,
)
    requires
        hint matches Some(text) ==> unstyled(text@),
        shows_hint(true, hint, plain),
        shows_hint(false, hint, shown),
        hint matches Some(text) ==> shown != " "@ + text@,
    ensures
        unstyled(plain),
        stripped(shown) == plain,
{
    plain_hints_are_unstyled(hint, plain);
    match hint {
        Some(text) => {
            reveal_strlit("hint:");
            let (label, painted): (&str, String) = choose|label: &str, painted: String| #[trigger]
                paints(Tone::Yellow, label, painted) && label@ == "hint:"@ && shown == painted@
                    + " "@ + text@;
            a_label_reads_as_it_was(Tone::Yellow, label, painted, text@, shown);
        },
        None => {
            unstyled_text_stays(plain);
        },
    }
}

proof fn a_label_reads_as_it_was(
    tone: Tone,
    label: &str,
    painted: String,
    line: Seq<char>,
    shown: Seq<char>,
)
    requires
        paints(tone, label, painted),
        unstyled(label@),
        unstyled(line),
        shown == painted@ + " "@ + line,
        shown != " "@ + line,
    ensures
        stripped(shown) == label@ + " "@ + line,
{
    reveal_strlit(" ");
    let rest = " "@ + line;
    assert(shown =~= painted@ + rest);
    assert(painted@.len() > 0) by {
        if painted@.len() == 0 {
            assert(painted@ + rest =~= rest);
        }
    }
    let console = painted_text_reads_as_it_was(tone, label, painted, rest);
    joined_text_is_unstyled(" "@, line);
    unstyled_text_stays(rest);
    assert(label@ + rest =~= label@ + " "@ + line);
}

/// The message for a solved module reads the same in either mode. Left out is a
/// console that understands no escape sequences, which shows an empty line.
pub proof fn a_completion_reads_the_same_in_either_mode(
    message: Seq<char>,
    plain: Seq<char>,
    shown: Seq<char>,
)
    requires
        unstyled(message),
        shows_completion(true, message, plain),
        shows_completion(false, message, shown),
        shown != "\n"@,
    ensures
        unstyled(plain),
        stripped(shown) == plain,
{
    reveal_strlit("\n");
    joined_text_is_unstyled("\n"@, message);
    let (line, painted): (&str, String) = choose|line: &str, painted: String| #[trigger]
        paints(Tone::Green, line, painted) && line@ == message && shown == "\n"@ + painted@;
    assert(painted@.len() > 0) by {
        if painted@.len() == 0 {
            assert("\n"@ + painted@ =~= "\n"@);
        }
    }
    let console = painted_text_reads_as_it_was(Tone::Green, line, painted, seq![]);
    stripping_keeps_unstyled_text("\n"@, painted@);
    assert(painted@ + Seq::<char>::empty() =~= painted@);
    assert(line@ + stripped(Seq::<char>::empty()) =~= line@);
}

/// The lines that ask for a hint, in order.
pub open spec fn requests(lines: Seq<Seq<char>>) -> Seq<Seq<char>>
    decreases lines.len(),
{
    if lines.len() == 0 {
        seq![]
    } else if asks_for_hint(lines.last()) {
        requests(lines.drop_last()).push(lines.last())
    } else {
        requests(lines.drop_last())
    }
}

/// The hint tracker once all of `lines` have been typed.
pub open spec fn hints_after_lines(hints: HintView, lines: Seq<Seq<char>>) -> HintView
    decreases lines.len(),
{
    if lines.len() == 0 {
        hints
    } else {
        let before = hints_after_lines(hints, lines.drop_last());
        if asks_for_hint(lines.last()) {
            before.after_hint()
        } else {
            before
        }
    }
}

/// What the lines are answered with, in order: a hint, or that there is none.
pub open spec fn hints_given(hints: HintView, lines: Seq<Seq<char>>) -> Seq<Option<&'static str>>
    decreases lines.len(),
{
    if lines.len() == 0 {
        seq![]
    } else if asks_for_hint(lines.last()) {
        hints_given(hints, lines.drop_last()).push(
            hints_after_lines(hints, lines.drop_last()).hint(),
        )
    } else {
        hints_given(hints, lines.drop_last())
    }
}

proof fn only_requests_count(hints: HintView, lines: Seq<Seq<char>>)
    ensures
        hints_after_lines(hints, requests(lines)) == hints_after_lines(hints, lines),
        hints_given(hints, requests(lines)) == hints_given(hints, lines),
    decreases lines.len(),
{
    if lines.len() > 0 {
        let before = lines.drop_last();
        only_requests_count(hints, before);
        if asks_for_hint(lines.last()) {
            assert(requests(lines).drop_last() =~= requests(before));
        }
    }
}

/// Lines that do not ask for a hint change nothing: two inputs that ask for hints with
/// the same lines are answered with the same hints and leave the tracker the same,
/// whatever else they hold.
pub proof fn other_lines_use_up_no_hint(
    hints: HintView,
    lines: Seq<Seq<char>>,
    other_lines: Seq<Seq<char>>,
)
    requires
        requests(lines) == requests(other_lines),
    ensures
        hints_given(hints, lines) == hints_given(hints, other_lines),
        hints_after_lines(hints, lines) == hints_after_lines(hints, other_lines),
{
    only_requests_count(hints, lines);
    only_requests_count(hints, other_lines);
}

/// Leaving a line out that does not ask for a hint leaves the requests as they are.
pub proof fn an_idle_line_can_be_left_out(lines: Seq<Seq<char>>, index: int)
    requires
        0 <= index < lines.len(),
        !asks_for_hint(lines[index]),
    ensures
        requests(lines.remove(index)) == requests(lines),
    decreases lines.len(),
{
    if index == lines.len() - 1 {
        assert(lines.remove(index) =~= lines.drop_last());
    } else {
        an_idle_line_can_be_left_out(lines.drop_last(), index);
        assert(lines.remove(index).drop_last() =~= lines.drop_last().remove(index));
        assert(lines.remove(index).last() == lines.last());
    }
}

/// The answer to a request for a hint, as `console` shows it.
pub open spec fn hint_text(
    plain_mode: bool,
    console: Console,
    hint: Option<&'static str>,
) -> Seq<char> {
    match hint {
        Some(hint) => if plain_mode {
            "hint:"@ + " "@ + hint@
        } else {
            rendering(console, color_code(Tone::Yellow), "hint:"@) + " "@ + hint@
        },
        None => "no more hints for this exercise (or nothing to hint about right now)"@,
    }
}

/// Every answer to a request for a hint is the one that some console shows, and in
/// plain mode all of them show the same.
pub proof fn a_hint_is_shown_on_some_console(
    plain_mode: bool,
    hint: Option<&'static str>,
    shown: Seq<char>,
)
    requires
        shows_hint(plain_mode, hint, shown),
    ensures
        exists|console: Console| shown == #[trigger] hint_text(plain_mode, console, hint),
        plain_mode ==> forall|console: Console| shown == #[trigger] hint_text(
            plain_mode,
            console,
            hint,
        ),
{
    if !plain_mode && hint is Some {
        let text = hint->0;
        let (label, painted): (&str, String) = choose|label: &str, painted: String| #[trigger]
            paints(Tone::Yellow, label, painted) && label@ == "hint:"@ && shown == painted@ + " "@
                + text@;
        painted_text_is_bold(Tone::Yellow, label, painted);
        let console = choose|console: Console|
            painted@ == #[trigger] rendering(console, color_code(Tone::Yellow), label@);
        assert(shown == hint_text(plain_mode, console, hint));
    } else {
        assert(shown == hint_text(plain_mode, Console::Colored, hint));
    }
}

/// True if `printed` is what typing `lines` prints on `console`: one answer for each
/// request, in order.
pub open spec fn prints(
    plain_mode: bool,
    console: Console,
    hints: HintView,
    lines: Seq<Seq<char>>,
    printed: Seq<Seq<char>>,
) -> bool {
    let given = hints_given(hints, lines);
    &&& printed.len() == given.len()
    &&& forall|i: int|
        0 <= i < printed.len() ==> shows_hint(plain_mode, given[i], #[trigger] printed[i]) && (
        plain_mode || printed[i] == hint_text(plain_mode, console, given[i]))
}

/// Lines that do not ask for a hint print nothing either: on one console, two inputs
/// that ask for hints with the same lines print the same text and leave the tracker the
/// same, whatever else they hold.
pub proof fn other_lines_print_nothing(
    plain_mode: bool,
    console: Console,
    hints: HintView,
    lines: Seq<Seq<char>>,
    other_lines: Seq<Seq<char>>,
    printed: Seq<Seq<char>>,
    other_printed: Seq<Seq<char>>,
)
    requires
        requests(lines) == requests(other_lines),
        prints(plain_mode, console, hints, lines, printed),
        prints(plain_mode, console, hints, other_lines, other_printed),
    ensures
        printed == other_printed,
        hints_after_lines(hints, lines) == hints_after_lines(hints, other_lines),
{
    other_lines_use_up_no_hint(hints, lines, other_lines);
    let given = hints_given(hints, lines);
    assert forall|i: int| 0 <= i < printed.len() implies printed[i] == other_printed[i] by {
        assert(shows_hint(plain_mode, given[i], other_printed[i]));
    }
    assert(printed =~= other_printed);
}

} // verus!
