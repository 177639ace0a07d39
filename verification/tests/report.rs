use algolings_cli::hints::HintTracker;
use algolings_cli::progress::Exercise;
use algolings_cli::report::{
    answer_line, completion_line, completion_message, concept_note_line, hint_line, hint_prompt,
    is_hint_request, labelled, set_apart, status_line, value_banner, watching_line,
};
use algolings_cli::style::{paint, Tone};

const EXERCISE: Exercise = Exercise {
    name: "bubble_sort",
    test_filter: "bubble",
    trace_key: "bubble",
    skeleton_path: "exercises/sort/src/bubble.rs",
    fixture: &[3, 1, 2],
    concept_note: "Each pass carries the largest value to the end.",
    hints: &["Compare neighbours.", "Swap them if they are out of order."],
    target: None,
    starts_empty: false,
};

const SORTED: &Exercise = &EXERCISE;

fn colored(color: &str, text: &str) -> String {
    format!("\u{1b}[{color}m\u{1b}[1m{text}\u{1b}[0m")
}

#[test]
fn completion_message_announces_the_next_module_when_one_remains() {
    let message = completion_message("sorting", Some("searching"), 10);
    assert!(message.contains("sorting"));
    assert!(message.contains("searching"));
}

#[test]
fn completion_message_announces_final_completion_on_the_last_module() {
    let message = completion_message("searching", None, 10);
    assert!(message.contains("10"));
    assert!(message.to_lowercase().contains("complete"));
    assert!(!message.contains("searching"));
}

#[test]
fn completion_messages_read_as_a_whole() {
    assert_eq!(
        completion_message("sorting", Some("searching"), 10),
        "sorting exercises complete! Moving on to searching..."
    );
    assert_eq!(
        completion_message("searching", None, 10),
        "All 10 exercises complete! Nice work."
    );
}

#[test]
fn plain_lines_hold_nothing_but_their_text() {
    assert_eq!(status_line(true, "bubble_sort", true), "\nbubble_sort — PASSED");
    assert_eq!(status_line(true, "bubble_sort", false), "\nbubble_sort — FAILED");
    assert_eq!(hint_prompt(true), "[h] show hint (type h and press enter)");
    assert_eq!(concept_note_line(true, "Swap neighbours."), "Swap neighbours.");
    assert_eq!(hint_line(true, Some("Swap.")), "hint: Swap.");
    assert_eq!(completion_line(true, "All done."), "\nAll done.");
}

#[test]
fn terminal_lines_are_bold_and_colored() {
    crossterm::style::force_color_output(true);
    assert_eq!(
        status_line(false, "bubble_sort", true),
        format!("\n{}", colored("38;5;10", "bubble_sort — PASSED"))
    );
    assert_eq!(
        status_line(false, "bubble_sort", false),
        format!("\n{}", colored("38;5;9", "bubble_sort — FAILED"))
    );
    assert_eq!(hint_prompt(false), colored("38;5;14", "[h] show hint"));
    assert_eq!(
        concept_note_line(false, "Swap neighbours."),
        format!("{} Swap neighbours.", colored("38;5;13", "lesson:"))
    );
    assert_eq!(
        hint_line(false, Some("Swap.")),
        format!("{} Swap.", colored("38;5;11", "hint:"))
    );
    assert_eq!(
        completion_line(false, "All done."),
        format!("\n{}", colored("38;5;10", "All done."))
    );
}

#[test]
fn terminal_lines_stay_bold_where_colors_are_turned_off() {
    crossterm::style::force_color_output(false);
    assert_eq!(hint_prompt(false), colored("", "[h] show hint"));
    assert_eq!(
        status_line(false, "bubble_sort", true),
        format!("\n{}", colored("", "bubble_sort — PASSED"))
    );
}

#[test]
fn a_missing_hint_reads_the_same_in_either_mode() {
    let regret = "no more hints for this exercise (or nothing to hint about right now)";
    assert_eq!(hint_line(true, None), regret);
    assert_eq!(hint_line(false, None), regret);
}

#[test]
fn small_lines_read_as_a_whole() {
    assert_eq!(value_banner(7), "value: 7");
    assert_eq!(value_banner(-12), "value: -12");
    assert_eq!(
        watching_line("exercises/sort/src/bubble.rs"),
        "watching exercises/sort/src/bubble.rs"
    );
    assert_eq!(set_apart("line"), "\nline");
    assert_eq!(labelled("label:", "line"), "label: line");
}

#[test]
fn only_a_lone_h_asks_for_a_hint() {
    assert!(is_hint_request("h"));
    assert!(is_hint_request("  h\t"));
    assert!(is_hint_request("h\r"));
    assert!(!is_hint_request(""));
    assert!(!is_hint_request("H"));
    assert!(!is_hint_request("hh"));
    assert!(!is_hint_request("h h"));
}

#[test]
fn hints_are_given_out_in_order_and_only_on_request() {
    let mut tracker = HintTracker::new();
    tracker.set_current_exercise(SORTED);
    assert_eq!(answer_line(true, &mut tracker, "help"), None);
    assert_eq!(
        answer_line(true, &mut tracker, "h"),
        Some("hint: Compare neighbours.".to_string())
    );
    assert_eq!(answer_line(true, &mut tracker, ""), None);
    assert_eq!(
        answer_line(true, &mut tracker, " h "),
        Some("hint: Swap them if they are out of order.".to_string())
    );
    assert_eq!(
        answer_line(true, &mut tracker, "h"),
        Some("no more hints for this exercise (or nothing to hint about right now)".to_string())
    );
}

#[test]
fn a_failing_save_takes_no_hint_back() {
    let mut tracker = HintTracker::default();
    assert_eq!(tracker.next_hint(), None);
    tracker.set_current_exercise(SORTED);
    assert_eq!(tracker.next_hint(), Some("Compare neighbours."));
    tracker.set_current_exercise(SORTED);
    assert_eq!(tracker.next_hint(), Some("Swap them if they are out of order."));
    tracker.clear();
    assert_eq!(tracker.next_hint(), None);
    tracker.set_current_exercise(SORTED);
    assert_eq!(tracker.next_hint(), Some("Compare neighbours."));
}

#[test]
fn other_lines_use_up_no_hint() {
    crossterm::style::force_color_output(true);
    for plain_mode in [true, false] {
        let mut quiet = HintTracker::new();
        let mut chatty = HintTracker::new();
        quiet.set_current_exercise(SORTED);
        chatty.set_current_exercise(SORTED);
        let mut quiet_answers = Vec::new();
        for line in ["h", " h"] {
            quiet_answers.extend(answer_line(plain_mode, &mut quiet, line));
        }
        let mut chatty_answers = Vec::new();
        for line in ["", "h", "help", "hh", " h", "?"] {
            chatty_answers.extend(answer_line(plain_mode, &mut chatty, line));
        }
        assert_eq!(quiet_answers.len(), 2);
        assert_eq!(quiet_answers, chatty_answers);
        assert_eq!(quiet.next_hint(), chatty.next_hint());
    }
}

#[test]
fn every_tone_has_its_own_color() {
    crossterm::style::force_color_output(true);
    assert_eq!(paint(Tone::Green, "text"), colored("38;5;10", "text"));
    assert_eq!(paint(Tone::Red, "text"), colored("38;5;9", "text"));
    assert_eq!(paint(Tone::Cyan, "text"), colored("38;5;14", "text"));
    assert_eq!(paint(Tone::Magenta, "text"), colored("38;5;13", "text"));
    assert_eq!(paint(Tone::Yellow, "text"), colored("38;5;11", "text"));
}
