//! Bold, colored text for terminals.

use crossterm::style::Stylize;
use vstd::prelude::*;

verus! {

/// How a console takes styled text. Which kind a console is depends on the machine
/// and on the environment that the program runs in.
pub enum Console {
    /// It understands escape sequences.
    Colored,
    /// It understands escape sequences, but `NO_COLOR` asks for no colors.
    Uncolored,
    /// It understands no escape sequences. Only old consoles of Windows are like
    /// that, and styled text comes out empty on them.
    Legacy,
}

/// `text` in bold and in the color that the escape parameters `color` select.
pub open spec fn rendering(console: Console, color: Seq<char>, text: Seq<char>) -> Seq<char> {
    match console {
        Console::Colored => "\u{1b}["@ + color + "m\u{1b}[1m"@ + text + "\u{1b}[0m"@,
        Console::Uncolored => "\u{1b}[m\u{1b}[1m"@ + text + "\u{1b}[0m"@,
        Console::Legacy => seq![],
    }
}

/// True if `styled` is `text` in bold and in the given color, on some console.
pub open spec fn is_bold(styled: Seq<char>, color: Seq<char>, text: Seq<char>) -> bool {
    exists|console: Console| styled == #[trigger] rendering(console, color, text)
}

/// Calls crossterm's `Stylize::green` and `Stylize::bold` on the text and formats
/// what they return. The text comes out between the escape sequences for bright
/// green and bold and the one that resets both.
#[verifier::external_body]
fn bold_green(text: &str) -> (styled: String)
    ensures
        is_bold(styled@, "38;5;10"@, text@),
{
    format!("{}", text.green().bold())
}

/// Calls crossterm's `Stylize::red` and `Stylize::bold` on the text and formats
/// what they return. The text comes out between the escape sequences for bright
/// red and bold and the one that resets both.
#[verifier::external_body]
fn bold_red(text: &str) -> (styled: String)
    ensures
        is_bold(styled@, "38;5;9"@, text@),
{
    format!("{}", text.red().bold())
}

/// Calls crossterm's `Stylize::cyan` and `Stylize::bold` on the text and formats
/// what they return. The text comes out between the escape sequences for bright
/// cyan and bold and the one that resets both.
#[verifier::external_body]
fn bold_cyan(text: &str) -> (styled: String)
    ensures
        is_bold(styled@, "38;5;14"@, text@),
{
    format!("{}", text.cyan().bold())
}

/// Calls crossterm's `Stylize::magenta` and `Stylize::bold` on the text and formats
/// what they return. The text comes out between the escape sequences for bright
/// magenta and bold and the one that resets both.
#[verifier::external_body]
fn bold_magenta(text: &str) -> (styled: String)
    ensures
        is_bold(styled@, "38;5;13"@, text@),
{
    format!("{}", text.magenta().bold())
}

/// Calls crossterm's `Stylize::yellow` and `Stylize::bold` on the text and formats
/// what they return. The text comes out between the escape sequences for bright
/// yellow and bold and the one that resets both.
#[verifier::external_body]
fn bold_yellow(text: &str) -> (styled: String)
    ensures
        is_bold(styled@, "38;5;11"@, text@),
{
    format!("{}", text.yellow().bold())
}

/// The colors that lines are painted in.
#[derive(Clone, Copy, Debug, PartialEq, Eq, Structural)]
pub enum Tone {
    Green,
    Red,
    Cyan,
    Magenta,
    Yellow,
}

/// The escape parameters that select a color.
pub open spec fn color_code(tone: Tone) -> Seq<char> {
    match tone {
        Tone::Green => "38;5;10"@,
        Tone::Red => "38;5;9"@,
        Tone::Cyan => "38;5;14"@,
        Tone::Magenta => "38;5;13"@,
        Tone::Yellow => "38;5;11"@,
    }
}

/// True if `painted` is what came back when `text` was handed over to be made bold
/// and to be given the color of `tone`.
pub closed spec fn paints(tone: Tone, text: &str, painted: String) -> bool {
    match tone {
        Tone::Green => call_ensures(bold_green, (text,), painted),
        Tone::Red => call_ensures(bold_red, (text,), painted),
        Tone::Cyan => call_ensures(bold_cyan, (text,), painted),
        Tone::Magenta => call_ensures(bold_magenta, (text,), painted),
        Tone::Yellow => call_ensures(bold_yellow, (text,), painted),
    }
}

/// What comes back of a painted text is that text, in bold and in its color.
pub proof fn painted_text_is_bold(tone: Tone, text: &str, painted: String)
    requires
        paints(tone, text, painted),
    ensures
        is_bold(painted@, color_code(tone), text@),
{
}

/// What `styler` makes of `text`.
fn styled_by<F: Fn(&str) -> String>(styler: F, text: &str) -> (styled: String)
    requires
        call_requires(styler, (text,)),
    ensures
        call_ensures(styler, (text,), styled),
{
    styler(text)
}

/// `text` in bold and in the color of `tone`.
pub fn paint(tone: Tone, text: &str) -> (painted: String)
    ensures
        paints(tone, text, painted),
        is_bold(painted@, color_code(tone), text@),
{
    match tone {
        Tone::Green => styled_by(bold_green, text),
        Tone::Red => styled_by(bold_red, text),
        Tone::Cyan => styled_by(bold_cyan, text),
        Tone::Magenta => styled_by(bold_magenta, text),
        Tone::Yellow => styled_by(bold_yellow, text),
    }
}

/// A text of any length and in any tone goes to crossterm as it is, and what comes back
/// of it is handed on as it is.
proof fn painting_is_left_to_crossterm(tone: Tone, text: &str, painted: String)
    requires
        call_ensures(paint, (tone, text), painted),
    ensures
        tone == Tone::Green ==> call_ensures(bold_green, (text,), painted),
        tone == Tone::Red ==> call_ensures(bold_red, (text,), painted),
        tone == Tone::Cyan ==> call_ensures(bold_cyan, (text,), painted),
        tone == Tone::Magenta ==> call_ensures(bold_magenta, (text,), painted),
        tone == Tone::Yellow ==> call_ensures(bold_yellow, (text,), painted),
{
}

/// What counts as painted is what crossterm made of the text, in any tone.
proof fn painted_text_comes_from_crossterm(text: &str, painted: String)
    ensures
        paints(Tone::Green, text, painted) ==> call_ensures(bold_green, (text,), painted),
        paints(Tone::Red, text, painted) ==> call_ensures(bold_red, (text,), painted),
        paints(Tone::Cyan, text, painted) ==> call_ensures(bold_cyan, (text,), painted),
        paints(Tone::Magenta, text, painted) ==> call_ensures(bold_magenta, (text,), painted),
        paints(Tone::Yellow, text, painted) ==> call_ensures(bold_yellow, (text,), painted),
{
}

/// The tones select five different colors of the terminal: bright green, red, cyan,
/// magenta and yellow.
pub proof fn every_tone_has_its_color(tone: Tone, text: &str, painted: String)
    requires
        call_ensures(paint, (tone, text), painted),
    ensures
        tone == Tone::Green ==> is_bold(painted@, "38;5;10"@, text@),
        tone == Tone::Red ==> is_bold(painted@, "38;5;9"@, text@),
        tone == Tone::Cyan ==> is_bold(painted@, "38;5;14"@, text@),
        tone == Tone::Magenta ==> is_bold(painted@, "38;5;13"@, text@),
        tone == Tone::Yellow ==> is_bold(painted@, "38;5;11"@, text@),
{
}

/// True if `text` stands in `shown`, from `start` on.
pub open spec fn stands_at(shown: Seq<char>, start: int, text: Seq<char>) -> bool {
    &&& 0 <= start <= shown.len() - text.len()
    &&& shown.subrange(start, start + text.len()) == text
}

/// Styling adds to a text and changes nothing of it: on every console that
/// understands escape sequences the text stands in the rendering as it is.
pub proof fn styling_keeps_the_text(console: Console, color: Seq<char>, text: Seq<char>)
    requires
        !(console is Legacy),
    ensures
        exists|start: int| #[trigger] stands_at(rendering(console, color, text), start, text),
{
    let shown = rendering(console, color, text);
    let before = if console is Colored {
        "\u{1b}["@ + color + "m\u{1b}[1m"@
    } else {
        "\u{1b}[m\u{1b}[1m"@
    };
    assert(shown == before + text + "\u{1b}[0m"@);
    assert(shown.subrange(before.len() as int, (before.len() + text.len()) as int) =~= text);
    assert(stands_at(shown, before.len() as int, text));
}

} // verus!
