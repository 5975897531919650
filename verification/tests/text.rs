use audio_switch::text::{encode_utf16, same_text, string_to_tip, to_wide, TIP_LEN};

#[test]
fn same_text_compares_characters() {
    assert!(same_text("", ""));
    assert!(same_text("abc", "abc"));
    assert!(same_text("音频 🎧", "音频 🎧"));
    assert!(!same_text("abc", "abd"));
    assert!(!same_text("abc", "ab"));
    assert!(!same_text("ab", "abc"));
    assert!(!same_text("abc", "ABC"));
    assert!(!same_text("", "a"));
    assert!(!same_text("é", "e\u{301}"));
}

#[test]
fn utf16_of_ascii() {
    assert_eq!(encode_utf16("Exit"), vec![0x45, 0x78, 0x69, 0x74]);
    assert_eq!(encode_utf16(""), Vec::<u16>::new());
}

#[test]
fn utf16_of_two_and_three_byte_characters() {
    assert_eq!(encode_utf16("é"), vec![0x00E9]);
    assert_eq!(encode_utf16("音"), vec![0x97F3]);
    assert_eq!(encode_utf16("\u{FFFF}"), vec![0xFFFF]);
    assert_eq!(encode_utf16("\u{D7FF}\u{E000}"), vec![0xD7FF, 0xE000]);
}

#[test]
fn utf16_of_characters_above_the_basic_plane() {
    assert_eq!(encode_utf16("\u{10000}"), vec![0xD800, 0xDC00]);
    assert_eq!(encode_utf16("🎧"), vec![0xD83C, 0xDFA7]);
    assert_eq!(encode_utf16("\u{10FFFF}"), vec![0xDBFF, 0xDFFF]);
    assert_eq!(encode_utf16("a🎧b"), vec![0x61, 0xD83C, 0xDFA7, 0x62]);
}

#[test]
fn utf16_agrees_with_std() {
    for s in ["Speakers (Realtek(R) Audio)", "Kopfhörer", "音频 🎧 ünïcödé", "\u{1F3A7}\u{10000}\u{FFFF}\u{0}"] {
        let expected: Vec<u16> = s.encode_utf16().collect();
        assert_eq!(encode_utf16(s), expected);
    }
}

#[test]
fn to_wide_appends_a_zero() {
    assert_eq!(to_wide(""), vec![0]);
    assert_eq!(to_wide("Exit"), vec![0x45, 0x78, 0x69, 0x74, 0]);
    assert_eq!(to_wide("🎧"), vec![0xD83C, 0xDFA7, 0]);
}

#[test]
fn tip_holds_the_text_then_zeros() {
    let tip = string_to_tip("Speakers");
    assert_eq!(tip.len(), 128);
    assert_eq!(TIP_LEN, 128);
    let expected: Vec<u16> = "Speakers".encode_utf16().collect();
    assert_eq!(&tip[..8], &expected[..]);
    assert!(tip[8..].iter().all(|&unit| unit == 0));
}

#[test]
fn tip_of_empty_text_is_all_zeros() {
    assert_eq!(string_to_tip(""), [0u16; 128]);
}

#[test]
fn tip_of_longest_text_keeps_the_closing_zero() {
    let text = "x".repeat(127);
    let tip = string_to_tip(&text);
    assert!(tip[..127].iter().all(|&unit| unit == 0x78));
    assert_eq!(tip[127], 0);
}

#[test]
fn tip_counts_code_units_not_characters() {
    let text = "🎧".repeat(63);
    let tip = string_to_tip(&text);
    for pair in 0..63 {
        assert_eq!(tip[2 * pair], 0xD83C);
        assert_eq!(tip[2 * pair + 1], 0xDFA7);
    }
    assert_eq!(tip[126], 0);
    assert_eq!(tip[127], 0);
}
