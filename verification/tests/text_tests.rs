use pokemon_colorscripts::text::visible_len;

#[test]
fn visible_len_skips_escapes() {
    assert_eq!(visible_len("\x1b[31mab\x1b[0mc"), 3);
}

#[test]
fn visible_len_of_empty_text_is_zero() {
    assert_eq!(visible_len(""), 0);
}

#[test]
fn visible_len_counts_characters_not_bytes() {
    assert_eq!(visible_len("é█▀"), 3);
    assert_eq!(visible_len("\x1b[38;2;255;0;0m▀\x1b[0m"), 1);
}

#[test]
fn visible_len_unfinished_escape_hides_the_rest() {
    assert_eq!(visible_len("ab\x1b[31"), 2);
    assert_eq!(visible_len("\x1b[31mx"), 1);
}
