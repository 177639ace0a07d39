use algolings_cli::text::{file_name, is_white_space, same_text, signed_text, trim, unsigned_text};

#[test]
fn extracts_the_bare_file_name_from_a_skeleton_path() {
    assert_eq!(file_name("exercises/sort/src/bubble.rs"), "bubble.rs");
}

#[test]
fn returns_the_input_unchanged_if_there_is_no_slash() {
    assert_eq!(file_name("bubble.rs"), "bubble.rs");
}

#[test]
fn a_path_that_ends_in_a_slash_has_an_empty_file_name() {
    assert_eq!(file_name("exercises/sort/"), "");
    assert_eq!(file_name("/"), "");
    assert_eq!(file_name(""), "");
}

#[test]
fn file_names_may_hold_any_character_but_a_slash() {
    assert_eq!(file_name("übungen/größe/blasen—sortieren.rs"), "blasen—sortieren.rs");
    assert_eq!(file_name("//a\\b"), "a\\b");
}

#[test]
fn white_space_is_what_the_standard_library_says_it_is() {
    for c in '\0'..=char::MAX {
        assert_eq!(is_white_space(c), c.is_whitespace(), "{:?}", c);
    }
}

#[test]
fn trims_like_the_standard_library() {
    let lines = [
        "",
        "h",
        "h\n",
        " h",
        "\t h \r\n",
        "\u{2003}h\u{a0}",
        "  two words  ",
        "   ",
        "é ",
        "\u{200b}h",
    ];
    for line in lines {
        assert_eq!(trim(line), line.trim());
    }
}

#[test]
fn texts_are_the_same_only_if_every_character_is() {
    assert!(same_text("", ""));
    assert!(same_text("größe", "größe"));
    assert!(!same_text("größe", "grösse"));
    assert!(!same_text("a", "ab"));
}

#[test]
fn numbers_are_written_in_decimal_digits() {
    for value in [0usize, 7, 9, 10, 19, 100, 1009, 4294967295, usize::MAX] {
        assert_eq!(unsigned_text(value), value.to_string());
    }
    for value in [0i32, 5, -5, 42, -10, i32::MAX, i32::MIN] {
        assert_eq!(signed_text(value), value.to_string());
    }
    assert_eq!(signed_text(i32::MIN), "-2147483648");
}
