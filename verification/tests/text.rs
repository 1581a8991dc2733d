use ccwc::text::{
    decimal_length, is_white_space, push_blanks, push_decimal, push_padded, split_blanks,
    trimmed_length,
};

#[test]
fn is_white_space_agrees_with_the_standard_library_on_every_character() {
    let mut n: u32 = 0;
    while n <= 0x10ffff {
        if let Some(c) = char::from_u32(n) {
            assert_eq!(is_white_space(c), c.is_whitespace(), "U+{:04X}", n);
        }
        n += 1;
    }
}

#[test]
fn split_blanks_splits_at_each_blank() {
    assert_eq!(split_blanks(""), vec!["".to_string()]);
    assert_eq!(split_blanks("ccwc"), vec!["ccwc".to_string()]);
    assert_eq!(
        split_blanks("ccwc -c  f\u{e9}.txt "),
        vec!["ccwc".to_string(), "-c".to_string(), "".to_string(), "f\u{e9}.txt".to_string(), "".to_string()]
    );
    for s in ["", " ", "a b", " a  b ", "tab\tstays one", "\u{a0} x"] {
        let expected: Vec<String> = s.split(" ").map(|p| p.to_string()).collect();
        assert_eq!(split_blanks(s), expected);
    }
}

#[test]
fn trimmed_length_is_the_length_of_the_trimmed_text() {
    for s in ["", " ", "a", "a ", " a", "a b \t\n", "\u{e9}\u{3000}", "x\u{200b} "] {
        assert_eq!(trimmed_length(s), s.trim_end().chars().count());
    }
}

#[test]
fn push_decimal_writes_the_number() {
    for n in [0u128, 7, 10, 99, 100, 12345, 18446744073709551615, u128::MAX] {
        let mut out = String::from("n=");
        push_decimal(&mut out, n);
        assert_eq!(out, format!("n={}", n));
        assert_eq!(decimal_length(n), n.to_string().len());
    }
}

#[test]
fn push_padded_fills_with_blanks_in_front() {
    let mut out = String::from("[");
    push_padded(&mut out, 42, 5);
    push_blanks(&mut out, 2);
    push_padded(&mut out, 123456, 3);
    assert_eq!(out, "[   42  123456");
}
