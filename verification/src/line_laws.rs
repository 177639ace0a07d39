//! What every line says that the learner gets to read, in plain mode and on a terminal
//! alike.

use crate::hints::HintTracker;
use crate::report::{
    answer_line, asks_for_hint, completion_line, completion_message, concept_note_line, hint_line,
    hint_prompt, is_hint_request, labelled, set_apart, status_line, value_banner, watching_line,
};
use crate::report_laws::{
    joined_text_is_unstyled, painted_text_reads_as_it_was, stripped, stripping_keeps_unstyled_text,
    unstyled, unstyled_text_stays,
};
use crate::style::{Tone, paints};
use crate::text::{
    decimal_digits, decimal_digits_write_their_number, decimal_number,
    decimal_numbers_write_their_number, padding_is_trimmed, trimmed,
    trimming_takes_only_white_space, trims_to, white_space, writes,
};
use vstd::prelude::*;

verus! {

/// True if `shown` is `before`, `text` and `after` in a row, with `text` as it is in
/// plain mode, and otherwise as it comes back when it is handed over to be painted.
pub open spec fn appears(
    plain_mode: bool,
    tone: Tone,
    before: Seq<char>,
    text: Seq<char>,
    after: Seq<char>,
    shown: Seq<char>,
) -> bool {
    if plain_mode {
        shown == before + text + after
    } else {
        exists|line: &str, painted: String| #[trigger]
            paints(tone, line, painted) && line@ == text && shown == before + painted@ + after
    }
}

/// Whatever the mode, a line reads as its text once its styling is taken away. Left out
/// is a console that understands no escape sequences, which does not show what is
/// painted.
pub proof fn what_appears_reads_as_its_text(
    plain_mode: bool,
    tone: Tone,
    before: Seq<char>,
    text: Seq<char>,
    after: Seq<char>,
    shown: Seq<char>,
)
    requires
        appears(plain_mode, tone, before, text, after, shown),
        unstyled(before),
        unstyled(text),
        unstyled(after),
        plain_mode || shown != before + after,
    ensures
        stripped(shown) == before + text + after,
        plain_mode ==> unstyled(shown),
{
    joined_text_is_unstyled(before, text);
    joined_text_is_unstyled(before + text, after);
    unstyled_text_stays(after);
    if plain_mode {
        unstyled_text_stays(shown);
    } else {
        let (line, painted): (&str, String) = choose|line: &str, painted: String| #[trigger]
            paints(tone, line, painted) && line@ == text && shown == before + painted@ + after;
        if painted@.len() == 0 {
            assert(before + painted@ + after =~= before + after);
        }
        let console = painted_text_reads_as_it_was(tone, line, painted, after);
        assert(shown =~= before + (painted@ + after));
        stripping_keeps_unstyled_text(before, painted@ + after);
        assert(before + (text + after) =~= before + text + after);
    }
}

/// A verdict names its exercise, says whether it passed, and is green or red on a
/// terminal.
pub proof fn a_verdict_names_its_exercise(
    plain_mode: bool,
    exercise_name: &str,
    passed: bool,
    shown: String,
)
    requires
        call_ensures(status_line, (plain_mode, exercise_name, passed), shown),
    ensures
        passed ==> appears(
            plain_mode,
            Tone::Green,
            "\n"@,
            exercise_name@ + " — PASSED"@,
            ""@,
            shown@,
        ),
        !passed ==> appears(
            plain_mode,
            Tone::Red,
            "\n"@,
            exercise_name@ + " — FAILED"@,
            ""@,
            shown@,
        ),
{
    reveal_strlit("");
    reveal_strlit(" — PASSED");
    reveal_strlit(" — FAILED");
    reveal_strlit(" — ");
    reveal_strlit("PASSED");
    reveal_strlit("FAILED");
    let (tone, text) = if passed {
        assert(exercise_name@ + " — "@ + "PASSED"@ =~= exercise_name@ + " — PASSED"@);
        (Tone::Green, exercise_name@ + " — PASSED"@)
    } else {
        assert(exercise_name@ + " — "@ + "FAILED"@ =~= exercise_name@ + " — FAILED"@);
        (Tone::Red, exercise_name@ + " — FAILED"@)
    };
    if plain_mode {
        assert(shown@ =~= "\n"@ + text + ""@);
    } else {
        let (line, painted): (&str, String) = choose|line: &str, painted: String| #[trigger]
            paints(tone, line, painted) && line@ == text && shown@ == "\n"@ + painted@;
        assert(shown@ =~= "\n"@ + painted@ + ""@);
    }
}

/// The line that offers a hint says how to ask for it.
pub proof fn a_hint_is_offered(plain_mode: bool, shown: String)
    requires
        call_ensures(hint_prompt, (plain_mode,), shown),
    ensures
        plain_mode ==> shown@ == "[h] show hint (type h and press enter)"@,
        !plain_mode ==> appears(false, Tone::Cyan, ""@, "[h] show hint"@, ""@, shown@),
{
    reveal_strlit("");
    if !plain_mode {
        let (line, painted): (&str, String) = choose|line: &str, painted: String| #[trigger]
            paints(Tone::Cyan, line, painted) && line@ == "[h] show hint"@ && shown@ == painted@;
        assert(shown@ =~= ""@ + painted@ + ""@);
    }
}

/// A lesson is the note of its exercise, behind a label on a terminal.
pub proof fn a_lesson_is_its_note(plain_mode: bool, note: &str, shown: String)
    requires
        call_ensures(concept_note_line, (plain_mode, note), shown),
    ensures
        plain_mode ==> shown@ == note@,
        !plain_mode ==> appears(false, Tone::Magenta, ""@, "lesson:"@, " "@ + note@, shown@),
{
    reveal_strlit("");
    if !plain_mode {
        let (label, painted): (&str, String) = choose|label: &str, painted: String| #[trigger]
            paints(Tone::Magenta, label, painted) && label@ == "lesson:"@ && shown@ == painted@
                + " "@ + note@;
        assert(shown@ =~= ""@ + painted@ + (" "@ + note@));
    }
}

/// A hint is shown as it is, behind a label, and where there is none, that is said.
pub proof fn a_hint_is_shown_as_it_is(
    plain_mode: bool,
    hint: Option<&'static str>,
    shown: String,
)
    requires
        call_ensures(hint_line, (plain_mode, hint), shown),
    ensures
        match hint {
            Some(text) => appears(
                plain_mode,
                Tone::Yellow,
                ""@,
                "hint:"@,
                " "@ + text@,
                shown@,
            ),
            None => shown@
                == "no more hints for this exercise (or nothing to hint about right now)"@,
        },
{
    reveal_strlit("");
    if let Some(text) = hint {
        if plain_mode {
            assert(shown@ =~= ""@ + "hint:"@ + (" "@ + text@));
        } else {
            let (label, painted): (&str, String) = choose|label: &str, painted: String| #[trigger]
                paints(Tone::Yellow, label, painted) && label@ == "hint:"@ && shown@ == painted@
                    + " "@ + text@;
            assert(shown@ =~= ""@ + painted@ + (" "@ + text@));
        }
    }
}

/// True if `line` is an `h` with nothing but white space around it.
pub open spec fn is_lone_h(line: Seq<char>) -> bool {
    exists|at: int| #[trigger] stands_alone(line, at) && line[at] == 'h'
}

/// True if every character of `line` is white space but for the one at `at`.
pub open spec fn stands_alone(line: Seq<char>, at: int) -> bool {
    &&& 0 <= at < line.len()
    &&& forall|i: int| 0 <= i < line.len() && i != at ==> white_space(#[trigger] line[i])
}

proof fn a_lone_h_is_a_request(line: Seq<char>)
    ensures
        asks_for_hint(line) <==> is_lone_h(line),
{
    reveal_strlit("h");
    if asks_for_hint(line) {
        trimming_takes_only_white_space(line);
        let (start, end) = choose|start: int, end: int| #[trigger]
            trims_to(line, start, end) && trimmed(line) == line.subrange(start, end);
        assert(line.subrange(start, end).len() == 1);
        assert(line.subrange(start, end)[0] == line[start]);
        assert(stands_alone(line, start));
    }
    if is_lone_h(line) {
        let at = choose|at: int| #[trigger] stands_alone(line, at) && line[at] == 'h';
        padding_is_trimmed(line.take(at), seq!['h'], line.skip(at + 1));
        assert(line =~= line.take(at) + seq!['h'] + line.skip(at + 1));
        assert("h"@ =~= seq!['h']);
    }
}

/// A hint is asked for by an `h` alone, with any white space around it.
pub proof fn only_a_lone_h_asks_for_a_hint(line: &str, asks: bool)
    requires
        call_ensures(is_hint_request, (line,), asks),
    ensures
        asks <==> is_lone_h(line@),
{
    a_lone_h_is_a_request(line@);
}

/// An `h` alone is answered with the first hint that has not been given, which is then
/// used up, or with the regret that there is none. Any other line is not answered, and
/// uses up nothing.
pub proof fn only_a_request_is_answered(
    plain_mode: bool,
    tracker: &mut HintTracker,
    line: &str,
    answer: Option<String>,
)
    requires
        call_ensures(answer_line, (plain_mode, tracker, line), answer),
    ensures
        answer is Some <==> is_lone_h(line@),
        !is_lone_h(line@) ==> final(tracker)@ == old(tracker)@,
        final(tracker)@.current == old(tracker)@.current,
        is_lone_h(line@) ==> if old(tracker)@.current is Some && old(tracker)@.shown < old(
            tracker,
        )@.current->0.hints@.len() {
            &&& final(tracker)@.shown == old(tracker)@.shown + 1
            &&& appears(
                plain_mode,
                Tone::Yellow,
                ""@,
                "hint:"@,
                " "@ + old(tracker)@.current->0.hints@[old(tracker)@.shown as int]@,
                answer->0@,
            )
        } else {
            &&& final(tracker)@.shown == old(tracker)@.shown
            &&& answer->0@
                == "no more hints for this exercise (or nothing to hint about right now)"@
        },
{
    a_lone_h_is_a_request(line@);
    reveal_strlit("");
    if let Some(shown) = answer {
        if let Some(text) = old(tracker)@.hint() {
            if plain_mode {
                assert(shown@ =~= ""@ + "hint:"@ + (" "@ + text@));
            } else {
                let (label, painted): (&str, String) = choose|label: &str, painted: String|
                    #[trigger]
                    paints(Tone::Yellow, label, painted) && label@ == "hint:"@ && shown@
                        == painted@ + " "@ + text@;
                assert(shown@ =~= ""@ + painted@ + (" "@ + text@));
            }
        }
    }
}

/// The message for a solved module names the module that comes next, if one does, and
/// otherwise how many exercises there were.
pub proof fn a_completion_message_looks_ahead(
    module_name: &str,
    next_module_name: Option<&str>,
    total_exercises: usize,
    message: String,
)
    requires
        call_ensures(
            completion_message,
            (module_name, next_module_name, total_exercises),
            message,
        ),
    ensures
        match next_module_name {
            Some(next) => message@ == module_name@ + " exercises complete! Moving on to "@ + next@
                + "..."@,
            None => exists|total: Seq<char>| #[trigger]
                writes(total, total_exercises as int) && message@ == "All "@ + total
                    + " exercises complete! Nice work."@,
        },
{
    decimal_digits_write_their_number(total_exercises as nat);
    assert(writes(decimal_digits(total_exercises as nat), total_exercises as int));
}

/// The message for a solved module is shown as it is, and green on a terminal.
pub proof fn a_completion_is_shown_as_it_is(plain_mode: bool, message: &str, shown: String)
    requires
        call_ensures(completion_line, (plain_mode, message), shown),
    ensures
        appears(plain_mode, Tone::Green, "\n"@, message@, ""@, shown@),
{
    reveal_strlit("");
    if plain_mode {
        assert(shown@ =~= "\n"@ + message@ + ""@);
    } else {
        let (line, painted): (&str, String) = choose|line: &str, painted: String| #[trigger]
            paints(Tone::Green, line, painted) && line@ == message@ && shown@ == "\n"@ + painted@;
        assert(shown@ =~= "\n"@ + painted@ + ""@);
    }
}

/// The smaller lines hold what they are about, as it is and at their end.
pub proof fn small_lines_hold_what_they_are_about(
    value: i32,
    banner: String,
    skeleton_path: &str,
    watching: String,
    line: &str,
    apart: String,
    label: &str,
    with_label: String,
)
    requires
        call_ensures(value_banner, (value,), banner),
        call_ensures(watching_line, (skeleton_path,), watching),
        call_ensures(set_apart, (line,), apart),
        call_ensures(labelled, (label, line), with_label),
    ensures
        banner@.len() > 7 && banner@.take(7) == "value: "@ && writes(banner@.skip(7), value as int),
        watching@ == "watching "@ + skeleton_path@,
        apart@.len() == line@.len() + 1 && apart@[0] == '\n' && apart@.skip(1) == line@,
        with_label@ == label@ + " "@ + line@,
{
    reveal_strlit("value: ");
    reveal_strlit("\n");
    let number = decimal_number(value as int);
    decimal_numbers_write_their_number(value as int);
    assert(banner@.take(7) =~= "value: "@);
    assert(banner@.skip(7) =~= number);
    assert(apart@.skip(1) =~= line@);
}

} // verus!
