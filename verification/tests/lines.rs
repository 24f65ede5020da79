use git_history::lines::{lines, split_first_line};

#[test]
fn empty_text_has_no_lines() {
    assert_eq!(lines(""), Vec::<&str>::new());
}

#[test]
fn text_without_line_feed_is_one_line() {
    assert_eq!(lines("abc"), vec!["abc"]);
}

#[test]
fn final_line_feed_adds_no_line() {
    assert_eq!(lines("abc\n"), vec!["abc"]);
    assert_eq!(lines("abc\ndef\n"), vec!["abc", "def"]);
    assert_eq!(lines("abc\ndef"), vec!["abc", "def"]);
}

#[test]
fn empty_lines_are_kept_by_the_splitter() {
    assert_eq!(lines("a\n\nb"), vec!["a", "", "b"]);
    assert_eq!(lines("\n"), vec![""]);
    assert_eq!(lines("\n\n"), vec!["", ""]);
    assert_eq!(lines("\na"), vec!["", "a"]);
}

#[test]
fn carriage_return_before_line_feed_belongs_to_the_ending() {
    assert_eq!(lines("a\r\nb\r\n"), vec!["a", "b"]);
    assert_eq!(lines("\r\n"), vec![""]);
    assert_eq!(lines("a\r\r\nb"), vec!["a\r", "b"]);
}

#[test]
fn carriage_return_elsewhere_is_an_ordinary_character() {
    assert_eq!(lines("a\rb"), vec!["a\rb"]);
    assert_eq!(lines("a\r"), vec!["a\r"]);
    assert_eq!(lines("a\nb\r"), vec!["a", "b\r"]);
    assert_eq!(lines("\r"), vec!["\r"]);
}

#[test]
fn lines_agree_with_the_standard_library() {
    let texts = [
        "",
        "\n",
        "\r\n",
        "one",
        "one\ntwo",
        "one\r\ntwo\r\n",
        "one\n\n\ntwo\n",
        "tab\tand space \n end\r",
        "grüße\nこんにちは\r\n🦀\n",
        "\u{85}\n\u{2028}x\n",
    ];
    for text in texts {
        let expected: Vec<&str> = text.lines().collect();
        assert_eq!(lines(text), expected, "text {:?}", text);
    }
}

#[test]
fn characters_of_several_bytes_are_not_cut() {
    assert_eq!(lines("é\nü"), vec!["é", "ü"]);
    assert_eq!(lines("日本語\r\n한국어"), vec!["日本語", "한국어"]);
    // U+010A and U+0A0A hold the byte 0x0A nowhere in their encodings, and
    // U+000D's neighbours U+0D0D and U+010D are no carriage returns.
    assert_eq!(lines("\u{10A}\u{A0A}\n\u{D0D}\u{10D}\r\n"), vec!["\u{10A}\u{A0A}", "\u{D0D}\u{10D}"]);
}

#[test]
fn split_first_line_gives_line_and_rest() {
    assert_eq!(split_first_line("a\nb\nc"), ("a", "b\nc"));
    assert_eq!(split_first_line("a\r\nb"), ("a", "b"));
    assert_eq!(split_first_line("a"), ("a", ""));
    assert_eq!(split_first_line("a\n"), ("a", ""));
    assert_eq!(split_first_line("\nb"), ("", "b"));
    assert_eq!(split_first_line(""), ("", ""));
    assert_eq!(split_first_line("a\r"), ("a\r", ""));
}
