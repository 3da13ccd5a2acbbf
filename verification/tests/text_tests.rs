use faerber::colorschemes::read_colour;
use faerber::hex::{hex_digit, parse_radix16, push_lower_hex6, to_lower_digit};
use faerber::text::{
    chars_of, find_next, joined, owned, push_decimal, slice_is, space, string_of, to_ascii_lower,
    to_ascii_upper, trim_range,
};

fn all_chars() -> impl Iterator<Item = char> {
    (0..=0x10ffffu32).filter_map(char::from_u32)
}

#[test]
fn white_space_is_what_the_standard_library_trims() {
    for c in all_chars() {
        assert_eq!(space(c), c.is_whitespace(), "{:x}", c as u32);
    }
}

#[test]
fn ascii_case_is_changed_as_the_standard_library_does() {
    for c in all_chars() {
        assert_eq!(to_ascii_upper(c), c.to_ascii_uppercase());
        assert_eq!(to_ascii_lower(c), c.to_ascii_lowercase());
    }
}

#[test]
fn hexadecimal_digits_have_their_values() {
    for c in all_chars() {
        assert_eq!(hex_digit(c).map(u32::from), c.to_digit(16), "{:x}", c as u32);
    }
    for v in 0..16u8 {
        assert_eq!(hex_digit(to_lower_digit(v)), Some(v));
        assert_eq!(to_lower_digit(v), char::from_digit(u32::from(v), 16).unwrap());
    }
}

#[test]
fn radix_sixteen_is_read_as_the_standard_library_reads_it() {
    let samples = [
        "", "+", "-", "0", "+0", "-0", "00", "ff", "FF", "fF", "+ff", "++ff", "ffffffff",
        "100000000", "+ffffffff", "0000000000ffffffff", "0x10", "1_0", " 1", "1 ", "g", "١",
        "12345678", "123456789", "fffffffff", "+", "a+", "#1",
    ];
    for s in samples {
        let v: Vec<char> = s.chars().collect();
        assert_eq!(parse_radix16(&v, 0, v.len()), u32::from_str_radix(s, 16).ok(), "{:?}", s);
        assert_eq!(
            read_colour(s),
            u32::from_str_radix(s.trim_start_matches('#'), 16).ok(),
            "{:?}",
            s
        );
    }
    let v: Vec<char> = "xx1fyy".chars().collect();
    assert_eq!(parse_radix16(&v, 2, 4), Some(0x1f));
    assert_eq!(parse_radix16(&v, 2, 2), None);
    assert_eq!(parse_radix16(&v, 1, 4), None);
}

#[test]
fn numbers_are_written_as_the_standard_library_writes_them() {
    for n in [0usize, 1, 9, 10, 11, 99, 100, 101, 255, 1000, 65535, 1234567890, usize::MAX] {
        let mut s = String::from("n=");
        push_decimal(&mut s, n);
        assert_eq!(s, format!("n={n}"));
    }
    for n in [0u32, 1, 0xf, 0x10, 0xabcdef, 0xffffff, 0x1000000, 0xfffffff, 0x10000000, u32::MAX] {
        let mut s = String::from("#");
        push_lower_hex6(&mut s, n);
        assert_eq!(s, format!("#{n:06x}"));
    }
}

#[test]
fn trimming_is_what_the_standard_library_trims() {
    for s in [
        "", " ", "a", " a", "a ", " a b \t", "\u{a0}x\u{3000}", "\r\n", "x\u{85}", "\u{200b}x",
        "  \u{1680}\u{2000}\u{200a}\u{2028}\u{2029}\u{202f}\u{205f}y  ",
    ] {
        let v = chars_of(s);
        let (a, b) = trim_range(&v, 0, v.len());
        assert_eq!(string_of(&v, a, b), s.trim(), "{:?}", s);
    }
    let v = chars_of("ab  cd  ef");
    assert_eq!(trim_range(&v, 2, 8), (4, 6));
    assert_eq!(trim_range(&v, 2, 4), (4, 4));
}

#[test]
fn texts_are_taken_apart_and_put_together() {
    let v = chars_of("h\u{e9}llo, world");
    assert_eq!(v.len(), 12);
    assert_eq!(string_of(&v, 0, 5), "h\u{e9}llo");
    assert_eq!(string_of(&v, 5, 5), "");
    assert!(slice_is(&v, 7, 12, "world"));
    assert!(!slice_is(&v, 7, 12, "worlds"));
    assert!(!slice_is(&v, 7, 12, "wyrld"));
    assert!(slice_is(&v, 3, 3, ""));
    assert_eq!(find_next(&v, ',', 0), 5);
    assert_eq!(find_next(&v, ',', 5), 5);
    assert_eq!(find_next(&v, ',', 6), 12);
    assert_eq!(find_next(&v, 'l', 3), 3);
    assert_eq!(joined("a\u{e9}", "b"), "a\u{e9}b");
    assert_eq!(joined("", ""), "");
    assert_eq!(owned("x y"), "x y");
}
