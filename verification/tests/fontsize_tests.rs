use imatree::determine_font_size;

#[test]
fn font_size_short_text() {
    assert_eq!(determine_font_size("short", None), 100);
}

#[test]
fn font_size_very_long_text() {
    let long = "a".repeat(61);
    assert_eq!(determine_font_size(&long, None), 5);
}

#[test]
fn font_size_explicit_override_wins() {
    assert_eq!(determine_font_size("any text at all", Some(42)), 42);
    assert_eq!(determine_font_size("", Some(7)), 7);
}

#[test]
fn font_size_bucket_boundaries() {
    let of_len = |n: usize| "x".repeat(n);
    assert_eq!(determine_font_size(&of_len(0), None), 100);
    assert_eq!(determine_font_size(&of_len(10), None), 100);
    assert_eq!(determine_font_size(&of_len(11), None), 75);
    assert_eq!(determine_font_size(&of_len(20), None), 75);
    assert_eq!(determine_font_size(&of_len(21), None), 50);
    assert_eq!(determine_font_size(&of_len(30), None), 50);
    assert_eq!(determine_font_size(&of_len(31), None), 25);
    assert_eq!(determine_font_size(&of_len(40), None), 25);
    assert_eq!(determine_font_size(&of_len(41), None), 17);
    assert_eq!(determine_font_size(&of_len(50), None), 17);
    assert_eq!(determine_font_size(&of_len(51), None), 10);
    assert_eq!(determine_font_size(&of_len(60), None), 10);
    assert_eq!(determine_font_size(&of_len(61), None), 5);
}

#[test]
fn font_size_counts_characters_not_bytes() {
    let five_chars = "ééééé";
    assert_eq!(five_chars.len(), 10);
    assert_eq!(determine_font_size(five_chars, None), 100);
}
