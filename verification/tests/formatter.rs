use ccwc::formatter::{format_line, format_output};

#[test]
fn test_format_output() {
    assert_eq!(
        "1 2 3 test.txt",
        format_output(vec![1, 2, 3], Some("test.txt".to_string()), 1)
    );
    assert_eq!("1 2 3", format_output(vec![1, 2, 3], None, 1));
    assert_eq!("   1  200 3000", format_output(vec![1, 200, 3000], None, 4))
}

#[test]
fn format_output_does_not_cut_a_long_count() {
    assert_eq!("12345 7 x", format_output(vec![12345, 7], Some("x".to_string()), 1));
    assert_eq!("12345     7 x", format_output(vec![12345, 7], Some("x".to_string()), 5));
    assert_eq!("0", format_output(vec![0], None, 0));
    assert_eq!(
        "18446744073709551615",
        format_output(vec![usize::MAX], None, 3)
    );
}

#[test]
fn format_output_trims_white_space_at_the_end() {
    assert_eq!("1 2", format_output(vec![1, 2], Some(String::new()), 1));
    assert_eq!("1 2", format_output(vec![1, 2], Some(" \t\u{a0}".to_string()), 1));
    assert_eq!("1 2 a b", format_output(vec![1, 2], Some("a b \n".to_string()), 1));
    assert_eq!("1 2   a", format_output(vec![1, 2], Some("  a".to_string()), 1));
}

#[test]
fn format_output_without_counts() {
    assert_eq!("", format_output(vec![], None, 3));
    assert_eq!(" total", format_output(vec![], Some("total".to_string()), 3));
    assert_eq!("", format_output(vec![], Some("  ".to_string()), 3));
}

#[test]
fn format_line_writes_wide_counts() {
    assert_eq!(
        "36893488147419103230 total",
        format_line(&vec![36893488147419103230u128], Some("total"), 2)
    );
    assert_eq!("  7", format_line(&vec![7u128], None, 3));
}
