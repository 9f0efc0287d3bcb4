use blackbox::text::{
    chars_of, find, find_field, is_white_space, push_decimal, push_signed_decimal, strip_ending,
    text_contains, text_of, text_precedes, trim, word_without,
};

fn decimal(n: u64) -> String {
    let mut out = String::from("n=");
    push_decimal(&mut out, n);
    out
}

fn signed(n: i64) -> String {
    let mut out = String::new();
    push_signed_decimal(&mut out, n);
    out
}

#[test]
fn decimal_digits_follow_what_is_there() {
    assert_eq!(decimal(0), "n=0");
    assert_eq!(decimal(9), "n=9");
    assert_eq!(decimal(10), "n=10");
    assert_eq!(decimal(1700000000123), "n=1700000000123");
    assert_eq!(decimal(u64::MAX), format!("n={}", u64::MAX));
}

#[test]
fn signed_digits_match_the_formatter() {
    for n in [0, 1, -1, 10, -10, 99, 100, -1700000000123, i64::MAX, i64::MIN] {
        assert_eq!(signed(n), format!("{}", n));
    }
}

#[test]
fn distinct_numbers_are_written_differently() {
    let mut seen: Vec<String> = Vec::new();
    for n in -120..=120 {
        let text = signed(n);
        assert!(!seen.contains(&text));
        seen.push(text);
    }
}

#[test]
fn white_space_is_that_of_unicode() {
    for code in 0..=0x10ffffu32 {
        if let Some(c) = char::from_u32(code) {
            assert_eq!(is_white_space(c), c.is_whitespace(), "{:x}", code);
        }
    }
}

#[test]
fn trim_takes_space_off_both_ends() {
    for text in ["", " ", "\t a b \n", "a", " \u{3000}\u{e9} x\u{2028}", "no space"] {
        assert_eq!(trim(text), text.trim());
    }
}

#[test]
fn contains_finds_what_is_there() {
    for text in ["", "a", "aab", "aaab", "mmcblk0\nmmcblk1", "\u{e9}\u{e8}"] {
        for pattern in ["", "a", "aab", "mmcblk1", "mmcblk2", "\u{e8}", "longer than all of it"] {
            assert_eq!(text_contains(text, pattern), text.contains(pattern));
        }
    }
}

#[test]
fn find_gives_the_first_place() {
    let text = chars_of("xTYPE=TYPE=");
    let pattern = chars_of("TYPE=");
    assert_eq!(find(&text, &pattern), Some(1));
    assert_eq!(find(&chars_of("TYP"), &pattern), None);
    assert_eq!(find(&chars_of(""), &chars_of("")), Some(0));
}

#[test]
fn text_of_spells_a_range() {
    let chars = chars_of("b\u{e9}ton");
    assert_eq!(text_of(&chars, 1, 3), "\u{e9}t");
    assert_eq!(text_of(&chars, 2, 2), "");
}

#[test]
fn word_without_drops_a_character() {
    assert_eq!(word_without(&chars_of("  \"ext4\" more"), '"'), "ext4");
    assert_eq!(word_without(&chars_of("   "), '"'), "");
    assert_eq!(word_without(&chars_of("\"\""), '"'), "");
}

#[test]
fn order_is_that_of_strings() {
    let texts = ["", "a", "ab", "b", "2024", "20240101_2", "20240101_10", "\u{e9}", "\u{10000}", "\u{ffff}"];
    for a in texts {
        for b in texts {
            assert_eq!(text_precedes(&chars_of(a), &chars_of(b)), a < b);
        }
    }
}

#[test]
fn a_field_is_no_part_of_a_longer_key() {
    let key = chars_of("K=");
    assert_eq!(find_field(&chars_of("K=1"), &key), Some(0));
    assert_eq!(find_field(&chars_of("XK=1\tK=2 K=3"), &key), Some(5));
    assert_eq!(find_field(&chars_of("XK=1"), &key), None);
    assert_eq!(find_field(&chars_of("K"), &key), None);
    assert_eq!(find_field(&chars_of(" K="), &key), Some(1));
    for before in ["a", "z", "A", "Z", "0", "9", "_", "-"] {
        assert_eq!(find_field(&chars_of(&format!("{}K=", before)), &key), None, "{}", before);
    }
    for before in [":", ",", "\"", "=", "@", "[", "`", "{", "/", "\n", "\u{e4}", "\u{ac00}"] {
        assert_eq!(find_field(&chars_of(&format!("{}K=", before)), &key), Some(1), "{}", before);
    }
}

#[test]
fn an_ending_is_stripped_once() {
    assert_eq!(strip_ending("a.log", ".log"), "a");
    assert_eq!(strip_ending("a.log.log", ".log"), "a.log");
    assert_eq!(strip_ending(".log", ".log"), "");
    assert_eq!(strip_ending("log", ".log"), "log");
    assert_eq!(strip_ending("a.logs", ".log"), "a.logs");
    assert_eq!(strip_ending("a", ""), "a");
}
