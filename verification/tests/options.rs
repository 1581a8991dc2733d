use ccwc::options::CountOptions;

#[test]
fn resolve_without_flags_gives_the_default() {
    let o = CountOptions::resolve(false, false, false, false, None, None);
    assert_eq!(o, CountOptions::new(true, true, false, true));
    assert_eq!(
        o,
        CountOptions {
            count_bytes: true,
            count_lines: true,
            count_characters: false,
            count_words: true
        }
    );
}

#[test]
fn resolve_lets_the_later_of_bytes_and_characters_win() {
    let o = CountOptions::resolve(true, false, true, false, Some(1), Some(2));
    assert_eq!(o, CountOptions::new(false, false, true, false));
    let o = CountOptions::resolve(true, true, true, true, Some(5), Some(3));
    assert_eq!(o, CountOptions::new(true, true, false, true));
}

#[test]
fn resolve_with_both_flags_at_one_place_falls_back_to_the_default() {
    let o = CountOptions::resolve(true, false, true, false, Some(1), Some(1));
    assert_eq!(o, CountOptions::new(true, true, false, true));
    let o = CountOptions::resolve(true, true, true, false, Some(1), Some(1));
    assert_eq!(o, CountOptions::new(false, true, false, false));
}

#[test]
fn resolve_passes_other_flags_through() {
    let o = CountOptions::resolve(false, true, false, false, None, None);
    assert_eq!(o, CountOptions::new(false, true, false, false));
    let o = CountOptions::resolve(true, false, false, true, Some(1), None);
    assert_eq!(o, CountOptions::new(true, false, false, true));
    let o = CountOptions::resolve(false, true, true, true, None, Some(7));
    assert_eq!(o, CountOptions::new(false, true, true, true));
}

#[test]
fn resolve_counts_a_flag_without_a_place_as_the_earlier_one() {
    let o = CountOptions::resolve(true, false, true, false, None, Some(0));
    assert_eq!(o, CountOptions::new(false, false, true, false));
    let o = CountOptions::resolve(true, false, true, false, Some(0), None);
    assert_eq!(o, CountOptions::new(true, false, false, false));
}
