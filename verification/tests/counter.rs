use ccwc::counter::{count, count_bytes, count_characters, count_lines, count_words};
use ccwc::options::CountOptions;

#[test]
fn test_count_bytes() {
    assert_eq!(count_bytes("Alfian"), 6);
}

#[test]
fn test_count_lines() {
    assert_eq!(count_lines("Singel line"), 1);
    assert_eq!(count_lines("Multiple\nlines"), 2);
}

#[test]
fn test_count_characters() {
    assert_eq!(count_characters("Alfian"), 6);
}

#[test]
fn test_count_words() {
    assert_eq!(count_words("Single line"), 2);
}

#[test]
fn test_count() {
    assert_eq!(
        count(
            "Multiple\nlines count",
            &CountOptions::new(true, true, true, true)
        ),
        vec![2, 3, 20, 20]
    );
    assert_eq!(
        count(
            "Multiple\nlines count",
            &CountOptions::new(false, true, true, true)
        ),
        vec![2, 3, 20]
    );
    assert_eq!(
        count(
            "Multiple\nlines count",
            &CountOptions::new(false, false, true, true)
        ),
        vec![3, 20]
    );
    assert_eq!(
        count(
            "Multiple\nlines count",
            &CountOptions::new(false, false, false, true)
        ),
        vec![3]
    );
    assert_eq!(
        count(
            "Multiple\nlines count",
            &CountOptions::new(false, false, false, false)
        ),
        vec![]
    );
}

#[test]
fn count_of_the_empty_text_is_zero_everywhere() {
    assert_eq!(count("", &CountOptions::new(true, true, true, true)), vec![0, 0, 0, 0]);
    assert_eq!(count("", &CountOptions::new(true, false, false, true)), vec![0, 0]);
}

#[test]
fn count_keeps_the_order_lines_words_bytes_characters() {
    let text = "na\u{ef}ve caf\u{e9}\nsecond line here\n";
    assert_eq!(count(text, &CountOptions::new(true, true, true, true)), vec![2, 5, 30, 28]);
    assert_eq!(count(text, &CountOptions::new(true, true, false, false)), vec![2, 30]);
    assert_eq!(count(text, &CountOptions::new(false, false, true, true)), vec![5, 28]);
    assert_eq!(count(text, &CountOptions::new(true, false, true, false)), vec![30, 28]);
    assert_eq!(count(text, &CountOptions::new(false, true, false, false)), vec![2]);
}

#[test]
fn count_bytes_counts_the_encoding_and_count_characters_the_scalars() {
    assert_eq!(count_bytes("\u{e9}"), 2);
    assert_eq!(count_characters("\u{e9}"), 1);
    assert_eq!(count_bytes("\u{20ac}\u{1f600}"), 7);
    assert_eq!(count_characters("\u{20ac}\u{1f600}"), 2);
}

#[test]
fn count_lines_does_not_count_an_empty_last_line() {
    assert_eq!(count_lines(""), 0);
    assert_eq!(count_lines("\n"), 1);
    assert_eq!(count_lines("a\n"), 1);
    assert_eq!(count_lines("a\nb\n"), 2);
    assert_eq!(count_lines("a\n\nb"), 3);
    assert_eq!(count_lines("\n\n"), 2);
    assert_eq!(count_lines("a\r\nb\r\n"), 2);
    assert_eq!(count_lines("a\rb"), 1);
}

#[test]
fn count_words_splits_at_any_white_space() {
    assert_eq!(count_words(""), 0);
    assert_eq!(count_words("   \t\n"), 0);
    assert_eq!(count_words("  lead and trail  "), 3);
    assert_eq!(count_words("a\tb\nc\r\nd"), 4);
    assert_eq!(count_words("a\u{a0}b\u{2003}c\u{3000}d\u{85}e"), 5);
    assert_eq!(count_words("a\u{200b}b"), 1);
}

#[test]
fn counts_agree_with_the_standard_library() {
    let samples = [
        "",
        " ",
        "\n",
        "one",
        "one two  three\n",
        "\u{1680}x\u{2028}y\u{2029}z\u{202f}w\u{205f}v",
        "tab\tsep\u{b}vt\u{c}ff\rcr",
        "line one\r\nline two\r\n\r\nlast",
        "\u{feff}bom \u{1f600} emoji\n",
    ];
    for s in samples {
        assert_eq!(count_lines(s), s.lines().count());
        assert_eq!(count_words(s), s.split_whitespace().count());
        assert_eq!(count_bytes(s), s.bytes().count());
        assert_eq!(count_characters(s), s.chars().count());
    }
}
