//! Small pieces of text: file names, trimmed lines and numbers in decimal digits.

use vstd::prelude::*;
use vstd::string::*;

verus! {

/// What follows the last slash of `path`, or all of it where it has none.
pub open spec fn file_name_of(path: Seq<char>) -> Seq<char>
    decreases path.len(),
{
    if path.len() == 0 || path.last() == '/' {
        seq![]
    } else {
        file_name_of(path.drop_last()).push(path.last())
    }
}

/// The bare file name (such as "bubble.rs") from a skeleton path like
/// "exercises/sort/src/bubble.rs", which is how a compiler's diagnostics name the
/// file.
pub fn file_name(skeleton_path: &str) -> (name: &str)
    ensures
        name@ == file_name_of(skeleton_path@),
{
    let ghost path = skeleton_path@;
    let mut start: usize = 0;
    let mut at: usize = 0;
    let length: usize = skeleton_path.unicode_len();
    for c in chars: skeleton_path.chars()
        invariant
            path == skeleton_path@,
            path.len() == length,
            chars.seq() == path,
            at == chars.index(),
            start <= at <= length,
            file_name_of(path.take(at as int)) == path.subrange(start as int, at as int),
    {
        assert(c == path[at as int]);
        assert(path.take(at + 1).drop_last() == path.take(at as int));
        at = at + 1;
        if c == '/' {
            start = at;
        }
        assert(file_name_of(path.take(at as int)) =~= path.subrange(start as int, at as int));
    }
    assert(path.take(length as int) == path);
    skeleton_path.substring_char(start, length)
}

/// A file name is the end of its path: it holds no slash, and it is either the
/// whole path or stands right behind a slash.
pub proof fn a_file_name_is_the_end_of_its_path(path: Seq<char>)
    ensures
        !file_name_of(path).contains('/'),
        file_name_of(path).len() <= path.len(),
        file_name_of(path) == path.skip(path.len() - file_name_of(path).len()),
        file_name_of(path).len() == path.len() || path[path.len() - file_name_of(path).len() - 1]
            == '/',
    decreases path.len(),
{
    let name = file_name_of(path);
    if path.len() > 0 && path.last() != '/' {
        let shorter = file_name_of(path.drop_last());
        a_file_name_is_the_end_of_its_path(path.drop_last());
        assert(name == shorter.push(path.last()));
        assert(!name.contains('/')) by {
            if name.contains('/') {
                let i = choose|i: int| 0 <= i < name.len() && name[i] == '/';
                assert(shorter[i] == '/');
            }
        }
        assert forall|i: int| 0 <= i < name.len() implies name[i] == path.skip(
            path.len() - name.len(),
        )[i] by {
            if i < shorter.len() {
                assert(shorter[i] == path.drop_last().skip(path.len() - 1 - shorter.len())[i]);
            }
        }
    }
    assert(name =~= path.skip(path.len() - name.len()));
}

/// A path without a slash is its own file name.
pub proof fn a_bare_name_is_its_own_file_name(path: Seq<char>)
    requires
        !path.contains('/'),
    ensures
        file_name_of(path) == path,
{
    a_file_name_is_the_end_of_its_path(path);
    assert(path.skip(0) == path);
}

/// The characters with the Unicode property White_Space.
pub open spec fn white_space(c: char) -> bool {
    ||| '\u{9}' <= c <= '\u{d}'
    ||| c == ' '
    ||| c == '\u{85}'
    ||| c == '\u{a0}'
    ||| c == '\u{1680}'
    ||| '\u{2000}' <= c <= '\u{200a}'
    ||| c == '\u{2028}'
    ||| c == '\u{2029}'
    ||| c == '\u{202f}'
    ||| c == '\u{205f}'
    ||| c == '\u{3000}'
}

/// True if `c` is white space.
pub fn is_white_space(c: char) -> (is_white: bool)
    ensures
        is_white == white_space(c),
{
    ('\u{9}' <= c && c <= '\u{d}') || c == ' ' || c == '\u{85}' || c == '\u{a0}' || c == '\u{1680}'
        || ('\u{2000}' <= c && c <= '\u{200a}') || c == '\u{2028}' || c == '\u{2029}' || c
        == '\u{202f}' || c == '\u{205f}' || c == '\u{3000}'
}

/// `text` without the white space that it starts with.
pub open spec fn trimmed_start(text: Seq<char>) -> Seq<char>
    decreases text.len(),
{
    if text.len() > 0 && white_space(text[0]) {
        trimmed_start(text.drop_first())
    } else {
        text
    }
}

/// `text` without the white space that it ends with.
pub open spec fn trimmed_end(text: Seq<char>) -> Seq<char>
    decreases text.len(),
{
    if text.len() > 0 && white_space(text.last()) {
        trimmed_end(text.drop_last())
    } else {
        text
    }
}

/// `text` without the white space around it.
pub open spec fn trimmed(text: Seq<char>) -> Seq<char> {
    trimmed_end(trimmed_start(text))
}

proof fn trimmed_start_skips(text: Seq<char>, start: int)
    requires
        0 <= start <= text.len(),
        forall|i: int| 0 <= i < start ==> white_space(#[trigger] text[i]),
        start < text.len() ==> !white_space(text[start]),
    ensures
        trimmed_start(text) == text.skip(start),
    decreases start,
{
    if start == 0 {
        assert(text.skip(0) == text);
    } else {
        assert(white_space(text[0]));
        assert forall|i: int| 0 <= i < start - 1 implies white_space(
            #[trigger] text.drop_first()[i],
        ) by {
            assert(text.drop_first()[i] == text[i + 1]);
        }
        trimmed_start_skips(text.drop_first(), start - 1);
        assert(text.drop_first().skip(start - 1) == text.skip(start));
    }
}

proof fn trimmed_end_takes(text: Seq<char>, end: int)
    requires
        0 <= end <= text.len(),
        forall|i: int| end <= i < text.len() ==> white_space(#[trigger] text[i]),
        end > 0 ==> !white_space(text[end - 1]),
    ensures
        trimmed_end(text) == text.take(end),
    decreases text.len() - end,
{
    if end == text.len() {
        assert(text.take(end) == text);
    } else {
        assert(white_space(text[text.len() - 1]));
        trimmed_end_takes(text.drop_last(), end);
        assert(text.drop_last().take(end) == text.take(end));
    }
}

/// `text` without the white space around it.
pub fn trim(text: &str) -> (inner: &str)
    ensures
        inner@ == trimmed(text@),
{
    let ghost whole = text@;
    let mut start: usize = 0;
    let mut end: usize = 0;
    let mut at: usize = 0;
    let length: usize = text.unicode_len();
    for c in chars: text.chars()
        invariant
            whole == text@,
            whole.len() == length,
            chars.seq() == whole,
            at == chars.index(),
            start <= end <= at <= length,
            forall|i: int| 0 <= i < start ==> white_space(#[trigger] whole[i]),
            forall|i: int| end <= i < at ==> white_space(#[trigger] whole[i]),
            start == end ==> start == at,
            start < end ==> !white_space(whole[start as int]) && !white_space(whole[end - 1]),
    {
        assert(c == whole[at as int]);
        at = at + 1;
        if !is_white_space(c) {
            end = at;
        } else if start == end {
            start = at;
            end = at;
        }
    }
    proof {
        trimmed_start_skips(whole, start as int);
        let rest = whole.skip(start as int);
        assert forall|i: int| end - start <= i < rest.len() implies white_space(
            #[trigger] rest[i],
        ) by {
            assert(rest[i] == whole[start + i]);
        }
        trimmed_end_takes(rest, end - start);
        assert(rest.take(end - start) == whole.subrange(start as int, end as int));
    }
    text.substring_char(start, end)
}

/// Trimming takes nothing but white space away, and leaves none at either end.
pub proof fn trimming_takes_only_white_space(text: Seq<char>)
    ensures
        exists|start: int, end: int| #[trigger]
            trims_to(text, start, end) && trimmed(text) == text.subrange(start, end),
{
    let start = leading_white_space(text);
    let rest = text.skip(start);
    trimmed_start_skips(text, start);
    let end = end_before_white_space(rest);
    trimmed_end_takes(rest, end);
    assert(rest.take(end) == text.subrange(start, start + end));
    assert forall|i: int| start + end <= i < text.len() implies white_space(#[trigger] text[i]) by {
        assert(rest[i - start] == text[i]);
    }
    assert(trims_to(text, start, start + end));
}

/// True if `text` has white space only before `start` and from `end` on, and the
/// part between them neither starts nor ends with any.
pub open spec fn trims_to(text: Seq<char>, start: int, end: int) -> bool {
    &&& 0 <= start <= end <= text.len()
    &&& forall|i: int| 0 <= i < start ==> white_space(#[trigger] text[i])
    &&& forall|i: int| end <= i < text.len() ==> white_space(#[trigger] text[i])
    &&& start < end ==> !white_space(text[start]) && !white_space(text[end - 1])
}

proof fn leading_white_space(text: Seq<char>) -> (start: int)
    ensures
        0 <= start <= text.len(),
        forall|i: int| 0 <= i < start ==> white_space(#[trigger] text[i]),
        start < text.len() ==> !white_space(text[start]),
    decreases text.len(),
{
    if text.len() > 0 && white_space(text[0]) {
        let start = leading_white_space(text.drop_first());
        assert forall|i: int| 0 <= i < start + 1 implies white_space(#[trigger] text[i]) by {
            if i > 0 {
                assert(text.drop_first()[i - 1] == text[i]);
            }
        }
        start + 1
    } else {
        0
    }
}

proof fn end_before_white_space(text: Seq<char>) -> (end: int)
    ensures
        0 <= end <= text.len(),
        forall|i: int| end <= i < text.len() ==> white_space(#[trigger] text[i]),
        end > 0 ==> !white_space(text[end - 1]),
    decreases text.len(),
{
    if text.len() > 0 && white_space(text.last()) {
        let end = end_before_white_space(text.drop_last());
        assert forall|i: int| end <= i < text.len() implies white_space(#[trigger] text[i]) by {
            if i < text.len() - 1 {
                assert(text.drop_last()[i] == text[i]);
            }
        }
        end
    } else {
        text.len() as int
    }
}

/// True if the two texts are the same.
pub fn same_text(left: &str, right: &str) -> (same: bool)
    ensures
        same == (left@ == right@),
{
    left.to_owned() == right.to_owned()
}

/// The decimal digit for `value`, which is less than ten.
pub open spec fn digit(value: nat) -> char {
    ('0' as u32 + value) as char
}

/// `value` in decimal digits, without leading zeros.
pub open spec fn decimal_digits(value: nat) -> Seq<char>
    decreases value,
{
    if value < 10 {
        seq![digit(value)]
    } else {
        decimal_digits(value / 10).push(digit(value % 10))
    }
}

/// `value` in decimal digits, with a minus sign where it is negative.
pub open spec fn decimal_number(value: int) -> Seq<char> {
    if value < 0 {
        seq!['-'] + decimal_digits((-value) as nat)
    } else {
        decimal_digits(value as nat)
    }
}

fn digit_text(value: usize) -> (text: &'static str)
    requires
        value < 10,
    ensures
        text@ == seq![digit(value as nat)],
{
    proof {
        reveal_strlit("0");
        reveal_strlit("1");
        reveal_strlit("2");
        reveal_strlit("3");
        reveal_strlit("4");
        reveal_strlit("5");
        reveal_strlit("6");
        reveal_strlit("7");
        reveal_strlit("8");
        reveal_strlit("9");
    }
    match value {
        0 => "0",
        1 => "1",
        2 => "2",
        3 => "3",
        4 => "4",
        5 => "5",
        6 => "6",
        7 => "7",
        8 => "8",
        _ => "9",
    }
}

/// `value` in decimal digits.
pub fn unsigned_text(value: usize) -> (text: String)
    ensures
        text@ == decimal_digits(value as nat),
    decreases value,
{
    if value < 10 {
        digit_text(value).to_owned()
    } else {
        let mut text = unsigned_text(value / 10);
        text.append(digit_text(value % 10));
        text
    }
}

/// `value` in decimal digits, with a minus sign where it is negative.
pub fn signed_text(value: i32) -> (text: String)
    ensures
        text@ == decimal_number(value as int),
{
    if value < 0 {
        proof {
            reveal_strlit("-");
        }
        let magnitude: usize = (-(value as i64)) as usize;
        let mut text = "-".to_owned();
        text.append(unsigned_text(magnitude).as_str());
        text
    } else {
        unsigned_text(value as usize)
    }
}

/// Every character of a number in decimal digits is a digit.
pub proof fn decimal_digits_are_digits(value: nat)
    ensures
        forall|i: int|
            0 <= i < decimal_digits(value).len() ==> '0' <= #[trigger] decimal_digits(value)[i]
                <= '9',
    decreases value,
{
    let digits = decimal_digits(value);
    if value >= 10 {
        decimal_digits_are_digits(value / 10);
        let shorter = decimal_digits(value / 10);
        assert(digits == shorter.push(digit(value % 10)));
        assert forall|i: int| 0 <= i < digits.len() implies '0' <= #[trigger] digits[i] <= '9' by {
            if i < shorter.len() {
                assert(digits[i] == shorter[i]);
            }
        }
    }
}

/// The number that `digits` stand for, read from the left.
pub open spec fn read_digits(digits: Seq<char>) -> int
    decreases digits.len(),
{
    if digits.len() == 0 {
        0
    } else {
        10 * read_digits(digits.drop_last()) + (digits.last() as int - '0' as int)
    }
}

/// True if `digits` are digits that read as `magnitude`, with no zero before them.
pub open spec fn reads_as(digits: Seq<char>, magnitude: int) -> bool {
    &&& digits.len() > 0
    &&& forall|i: int| 0 <= i < digits.len() ==> '0' <= #[trigger] digits[i] <= '9'
    &&& digits[0] == '0' ==> digits.len() == 1
    &&& read_digits(digits) == magnitude
}

/// True if `text` is how `value` is written: a minus sign if it is negative, and then
/// digits that read as its magnitude.
pub open spec fn writes(text: Seq<char>, value: int) -> bool {
    if value < 0 {
        text.len() > 0 && text[0] == '-' && reads_as(text.skip(1), -value)
    } else {
        reads_as(text, value)
    }
}

/// Digits read as the number that they were written for, and start with a zero for zero
/// alone.
pub proof fn decimal_digits_write_their_number(value: nat)
    ensures
        writes(decimal_digits(value), value as int),
    decreases value,
{
    let digits = decimal_digits(value);
    decimal_digits_are_digits(value);
    if value < 10 {
        assert(digits.drop_last() =~= seq![]);
        assert(read_digits(digits.drop_last()) == 0);
        assert(digits.last() as int == '0' as int + value);
    } else {
        decimal_digits_write_their_number(value / 10);
        let shorter = decimal_digits(value / 10);
        assert(digits.drop_last() =~= shorter);
        assert(digits.last() as int == '0' as int + value % 10);
        assert(digits[0] == shorter[0]);
        if shorter[0] == '0' {
            assert(shorter.drop_last() =~= seq![]);
            assert(read_digits(shorter.drop_last()) == 0);
            assert(read_digits(shorter) == 0);
        }
    }
}

/// A number in decimal digits reads as that number.
pub proof fn decimal_numbers_write_their_number(value: int)
    ensures
        writes(decimal_number(value), value),
{
    if value < 0 {
        decimal_digits_write_their_number((-value) as nat);
        assert(decimal_number(value).skip(1) =~= decimal_digits((-value) as nat));
    } else {
        decimal_digits_write_their_number(value as nat);
    }
}

/// The file name of a path is what is left behind its last slash.
pub proof fn a_file_name_stands_behind_the_last_slash(
    directory: Seq<char>,
    name: Seq<char>,
    path: &str,
    found: &str,
)
    requires
        path@ == directory + name,
        directory.len() > 0 ==> directory.last() == '/',
        !name.contains('/'),
        call_ensures(file_name, (path,), found),
    ensures
        found@ == name,
{
    a_file_name_is_the_end_of_its_path(path@);
    let other = found@;
    if other.len() < name.len() {
        let at = path@.len() - other.len() - 1;
        assert(path@[at] == '/');
        assert(name[at - directory.len()] == '/');
    } else if other.len() > name.len() {
        assert(path@[directory.len() - 1] == '/');
        let at = directory.len() - 1 - (path@.len() - other.len());
        assert(other[at] == '/');
    }
    assert(other =~= name);
}

/// What stands between white space is what is left of a text when it is trimmed.
pub proof fn padding_is_trimmed(before: Seq<char>, inner: Seq<char>, after: Seq<char>)
    requires
        forall|i: int| 0 <= i < before.len() ==> white_space(#[trigger] before[i]),
        forall|i: int| 0 <= i < after.len() ==> white_space(#[trigger] after[i]),
        inner.len() > 0 ==> !white_space(inner[0]) && !white_space(inner.last()),
    ensures
        trimmed(before + inner + after) == inner,
{
    let whole = before + inner + after;
    if inner.len() > 0 {
        let start = before.len() as int;
        let end = inner.len() as int;
        assert forall|i: int| 0 <= i < start implies white_space(#[trigger] whole[i]) by {
            assert(whole[i] == before[i]);
        }
        assert(whole[start] == inner[0]);
        trimmed_start_skips(whole, start);
        let rest = whole.skip(start);
        assert forall|i: int| end <= i < rest.len() implies white_space(#[trigger] rest[i]) by {
            assert(rest[i] == after[i - end]);
        }
        assert(rest[end - 1] == inner.last());
        trimmed_end_takes(rest, end);
        assert(rest.take(end) =~= inner);
    } else {
        assert forall|i: int| 0 <= i < whole.len() implies white_space(#[trigger] whole[i]) by {
            if i < before.len() {
                assert(whole[i] == before[i]);
            } else {
                assert(whole[i] == after[i - before.len()]);
            }
        }
        trimmed_start_skips(whole, whole.len() as int);
        assert(whole.skip(whole.len() as int) =~= seq![]);
        assert(inner =~= seq![]);
    }
}

/// Trimming gives back what stands between white space, whatever that is.
pub proof fn trimming_undoes_padding(
    before: Seq<char>,
    inner: Seq<char>,
    after: Seq<char>,
    text: &str,
    trimmed_text: &str,
)
    requires
        text@ == before + inner + after,
        forall|i: int| 0 <= i < before.len() ==> white_space(#[trigger] before[i]),
        forall|i: int| 0 <= i < after.len() ==> white_space(#[trigger] after[i]),
        inner.len() > 0 ==> !white_space(inner[0]) && !white_space(inner.last()),
        call_ensures(trim, (text,), trimmed_text),
    ensures
        trimmed_text@ == inner,
{
    padding_is_trimmed(before, inner, after);
}

/// Two texts are the same if and only if every character is.
pub proof fn the_same_text_has_the_same_characters(left: &str, right: &str, same: bool)
    requires
        call_ensures(same_text, (left, right), same),
    ensures
        same <==> left@.len() == right@.len() && forall|i: int|
            0 <= i < left@.len() ==> left@[i] == #[trigger] right@[i],
{
    if left@.len() == right@.len() && (forall|i: int|
        0 <= i < left@.len() ==> left@[i] == #[trigger] right@[i]) {
        assert(left@ =~= right@);
    }
}

/// Numbers are written so that they read as themselves.
pub proof fn numbers_read_as_themselves(
    natural: usize,
    natural_text: String,
    integer: i32,
    integer_text: String,
)
    requires
        call_ensures(unsigned_text, (natural,), natural_text),
        call_ensures(signed_text, (integer,), integer_text),
    ensures
        writes(natural_text@, natural as int),
        writes(integer_text@, integer as int),
{
    decimal_digits_write_their_number(natural as nat);
    decimal_numbers_write_their_number(integer as int);
}

} // verus!
