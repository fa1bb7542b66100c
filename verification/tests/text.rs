use openapi_snapshot::text::{chars_of, find_sep, is_space, trim_range};

#[test]
fn white_space_is_what_unicode_says() {
    for code in 0..=0x11_0000u32 {
        if let Some(c) = char::from_u32(code) {
            assert_eq!(is_space(c), c.is_whitespace(), "U+{code:04X}");
        }
    }
}

#[test]
fn trimming_gives_the_bounds() {
    let chars = chars_of("  a b \u{a0}");
    assert_eq!(chars.len(), 7);
    assert_eq!(trim_range(&chars, 0, chars.len()), (2, 5));
    assert_eq!(trim_range(&chars, 3, 4), (4, 4));
    assert_eq!(trim_range(&chars, 5, 7), (7, 7));
}

#[test]
fn separators_are_found_from_a_position() {
    let chars = chars_of("a,b,,c");
    assert_eq!(find_sep(&chars, ',', 0), 1);
    assert_eq!(find_sep(&chars, ',', 1), 1);
    assert_eq!(find_sep(&chars, ',', 2), 3);
    assert_eq!(find_sep(&chars, ',', 5), 6);
    assert_eq!(find_sep(&chars, ',', 6), 6);
}
