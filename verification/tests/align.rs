use cpu_probe::align::AlignString;

#[test]
fn align_right_pads_on_the_left() {
    assert_eq!("abc".align_to_right(6), "   abc");
    assert_eq!(String::from("abc").align_to_right(6), "   abc");
}

#[test]
fn align_left_pads_on_the_right() {
    assert_eq!("abc".align_to_left(6), "abc   ");
}

#[test]
fn align_center_gives_the_odd_space_to_the_right() {
    assert_eq!("ab".align_to_center(5), " ab  ");
    assert_eq!("ab".align_to_center(6), "  ab  ");
}

#[test]
fn alignment_keeps_wide_strings_unchanged() {
    assert_eq!("abcdef".align_to_right(3), "abcdef");
    assert_eq!("abcdef".align_to_left(6), "abcdef");
    assert_eq!("abcdef".align_to_center(0), "abcdef");
}

#[test]
fn alignment_counts_bytes_not_characters() {
    // a two-byte character fills two of four columns
    assert_eq!("é".align_to_right(4), "  é");
}
