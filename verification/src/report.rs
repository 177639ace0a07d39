//! What the learner sees: the lines that are printed.
//!
//! Plain mode is for screen readers and for output that is no terminal. It has no
//! color, ever.

use crate::hints::HintTracker;
use crate::style::{Tone, paint, paints};
use crate::text::{
    decimal_digits, decimal_number, same_text, signed_text, trim, trimmed, unsigned_text,
};
use vstd::prelude::*;
use vstd::string::*;

verus! {

/// `line` with an empty line before it.
pub fn set_apart(line: &str) -> (text: String)
    ensures
        text@ == "\n"@ + line@,
{
    let mut text = "\n".to_owned();
    text.append(line);
    text
}

/// `label`, a space and `line`.
pub fn labelled(label: &str, line: &str) -> (text: String)
    ensures
        text@ == label@ + " "@ + line@,
{
    let mut text = label.to_owned();
    text.append(" ");
    text.append(line);
    text
}

/// The verdict on an exercise.
pub open spec fn verdict(exercise_name: Seq<char>, passed: bool) -> Seq<char> {
    exercise_name + " — "@ + if passed {
        "PASSED"@
    } else {
        "FAILED"@
    }
}

/// Green for a pass, red for a failure.
pub open spec fn verdict_tone(passed: bool) -> Tone {
    if passed {
        Tone::Green
    } else {
        Tone::Red
    }
}

/// True if `shown` is the verdict on an exercise as the learner sees it: set apart,
/// and green or red unless in plain mode.
pub open spec fn shows_status(
    plain_mode: bool,
    exercise_name: Seq<char>,
    passed: bool,
    shown: Seq<char>,
) -> bool {
    if plain_mode {
        shown == "\n"@ + verdict(exercise_name, passed)
    } else {
        exists|line: &str, painted: String| #[trigger]
            paints(verdict_tone(passed), line, painted) && line@ == verdict(exercise_name, passed)
                && shown == "\n"@ + painted@
    }
}

/// The verdict on an exercise as the learner sees it.
pub fn status_line(plain_mode: bool, exercise_name: &str, passed: bool) -> (shown: String)
    ensures
        shows_status(plain_mode, exercise_name@, passed, shown@),
{
    let label = if passed {
        "PASSED"
    } else {
        "FAILED"
    };
    let mut line = exercise_name.to_owned();
    line.append(" — ");
    line.append(label);
    assert(line@ == verdict(exercise_name@, passed));
    if plain_mode {
        return set_apart(line.as_str());
    }
    let tone = if passed {
        Tone::Green
    } else {
        Tone::Red
    };
    let painted = paint(tone, line.as_str());
    assert(tone == verdict_tone(passed));
    set_apart(painted.as_str())
}

/// The line that tells the value that an exercise works with.
pub fn value_banner(value: i32) -> (line: String)
    ensures
        line@ == "value: "@ + decimal_number(value as int),
{
    let mut line = "value: ".to_owned();
    line.append(signed_text(value).as_str());
    line
}

/// True if `shown` is the line that offers a hint.
pub open spec fn shows_hint_prompt(plain_mode: bool, shown: Seq<char>) -> bool {
    if plain_mode {
        shown == "[h] show hint (type h and press enter)"@
    } else {
        exists|line: &str, painted: String| #[trigger]
            paints(Tone::Cyan, line, painted) && line@ == "[h] show hint"@ && shown == painted@
    }
}

/// The line that offers a hint.
pub fn hint_prompt(plain_mode: bool) -> (shown: String)
    ensures
        shows_hint_prompt(plain_mode, shown@),
{
    if plain_mode {
        "[h] show hint (type h and press enter)".to_owned()
    } else {
        paint(Tone::Cyan, "[h] show hint")
    }
}

/// True if `shown` is the lesson of a solved exercise as the learner sees it.
pub open spec fn shows_concept_note(plain_mode: bool, note: Seq<char>, shown: Seq<char>) -> bool {
    if plain_mode {
        shown == note
    } else {
        exists|label: &str, painted: String| #[trigger]
            paints(Tone::Magenta, label, painted) && label@ == "lesson:"@ && shown == painted@
                + " "@ + note
    }
}

/// The lesson of a solved exercise as the learner sees it.
pub fn concept_note_line(plain_mode: bool, note: &str) -> (shown: String)
    ensures
        shows_concept_note(plain_mode, note@, shown@),
{
    if plain_mode {
        note.to_owned()
    } else {
        labelled(paint(Tone::Magenta, "lesson:").as_str(), note)
    }
}

/// True if `shown` answers a request for a hint with `hint`, or with the regret that
/// there is none.
pub open spec fn shows_hint(
    plain_mode: bool,
    hint: Option<&'static str>,
    shown: Seq<char>,
) -> bool {
    match hint {
        Some(hint) => if plain_mode {
            shown == "hint:"@ + " "@ + hint@
        } else {
            exists|label: &str, painted: String| #[trigger]
                paints(Tone::Yellow, label, painted) && label@ == "hint:"@ && shown == painted@
                    + " "@ + hint@
        },
        None => shown
            == "no more hints for this exercise (or nothing to hint about right now)"@,
    }
}

/// The answer to a request for a hint.
pub fn hint_line(plain_mode: bool, hint: Option<&'static str>) -> (shown: String)
    ensures
        shows_hint(plain_mode, hint, shown@),
{
    match hint {
        Some(hint) => if plain_mode {
            labelled("hint:", hint)
        } else {
            labelled(paint(Tone::Yellow, "hint:").as_str(), hint)
        },
        None => "no more hints for this exercise (or nothing to hint about right now)".to_owned(),
    }
}

/// The learner asks for a hint by a line that says `h` and nothing else.
pub open spec fn asks_for_hint(line: Seq<char>) -> bool {
    trimmed(line) == "h"@
}

/// True if `line` asks for a hint.
pub fn is_hint_request(line: &str) -> (asks: bool)
    ensures
        asks == asks_for_hint(line@),
{
    same_text(trim(line), "h")
}

/// What a line that the learner types is answered with. Only a request for a hint
/// is answered at all, and only such a request uses a hint up.
pub fn answer_line(plain_mode: bool, tracker: &mut HintTracker, line: &str) -> (answer: Option<
    String,
>)
    ensures
        answer is Some <==> asks_for_hint(line@),
        answer matches Some(shown) ==> shows_hint(plain_mode, old(tracker)@.hint(), shown@),
        final(tracker)@ == if asks_for_hint(line@) {
            old(tracker)@.after_hint()
        } else {
            old(tracker)@
        },
        asks_for_hint(line@) ==> (old(tracker)@.current matches Some(exercise) ==> old(
            tracker,
        )@.shown <= exercise.hints@.len()),
{
    if !is_hint_request(line) {
        return None;
    }
    Some(hint_line(plain_mode, tracker.next_hint()))
}

/// The message for a module whose exercises are all solved.
pub open spec fn completion_text(
    module_name: Seq<char>,
    next_module_name: Option<&str>,
    total_exercises: nat,
) -> Seq<char> {
    match next_module_name {
        Some(next) => module_name + " exercises complete! Moving on to "@ + next@ + "..."@,
        None => "All "@ + decimal_digits(total_exercises) + " exercises complete! Nice work."@,
    }
}

/// The message for a module whose exercises are all solved: announces the next
/// module if one remains, or final completion on the last one.
pub fn completion_message(
    module_name: &str,
    next_module_name: Option<&str>,
    total_exercises: usize,
) -> (message: String)
    ensures
        message@ == completion_text(module_name@, next_module_name, total_exercises as nat),
{
    match next_module_name {
        Some(next) => {
            let mut message = module_name.to_owned();
            message.append(" exercises complete! Moving on to ");
            message.append(next);
            message.append("...");
            message
        },
        None => {
            let mut message = "All ".to_owned();
            message.append(unsigned_text(total_exercises).as_str());
            message.append(" exercises complete! Nice work.");
            message
        },
    }
}

/// True if `shown` is `message`, set apart, and green unless in plain mode.
pub open spec fn shows_completion(
    plain_mode: bool,
    message: Seq<char>,
    shown: Seq<char>,
) -> bool {
    if plain_mode {
        shown == "\n"@ + message
    } else {
        exists|line: &str, painted: String| #[trigger]
            paints(Tone::Green, line, painted) && line@ == message && shown == "\n"@ + painted@
    }
}

/// The message for a solved module as the learner sees it.
pub fn completion_line(plain_mode: bool, message: &str) -> (shown: String)
    ensures
        shows_completion(plain_mode, message@, shown@),
{
    if plain_mode {
        set_apart(message)
    } else {
        set_apart(paint(Tone::Green, message).as_str())
    }
}

/// The line that names the file to work on.
pub fn watching_line(skeleton_path: &str) -> (line: String)
    ensures
        line@ == "watching "@ + skeleton_path@,
{
    let mut line = "watching ".to_owned();
    line.append(skeleton_path);
    line
}

} // verus!
