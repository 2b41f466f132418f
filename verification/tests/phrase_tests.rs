use gpuseed::phrase::{character_weight, is_whitespace_char, screen, Candidate};

#[test]
fn weight_counts_what_is_not_white_space() {
    assert_eq!(character_weight(""), 0);
    assert_eq!(character_weight("   "), 0);
    assert_eq!(character_weight("abandon"), 7);
    assert_eq!(character_weight("abandon ability able"), 18);
    assert_eq!(character_weight(" lead  trail "), 9);
}

#[test]
fn weight_of_a_twelve_word_phrase() {
    let phrase = "legal winner thank year wave sausage worth useful legal winner thank yellow";
    assert_eq!(phrase.len(), 75);
    assert_eq!(character_weight(phrase), 64);
    assert_eq!(character_weight(phrase), phrase.replace(' ', "").len());
}

#[test]
fn weight_counts_characters_not_bytes() {
    assert_eq!(character_weight("gar\u{e7}on"), 6);
    assert_eq!(character_weight("\u{3042}\u{3044}\u{3000}\u{3046}"), 3);
}

#[test]
fn weight_skips_every_kind_of_white_space() {
    assert_eq!(character_weight("a\tb\nc\rd"), 4);
    assert_eq!(character_weight("a\u{a0}b\u{2003}c\u{3000}d"), 4);
    assert_eq!(character_weight("a\u{200b}b"), 3);
}

#[test]
fn white_space_is_what_std_calls_white_space() {
    let mut code = 0u32;
    while code <= 0x3100 {
        if let Some(c) = char::from_u32(code) {
            assert_eq!(is_whitespace_char(c), c.is_whitespace(), "U+{:04X}", code);
        }
        code += 1;
    }
    assert!(!is_whitespace_char('\u{feff}'));
    assert!(!is_whitespace_char('\u{10ffff}'));
}

#[test]
fn candidate_holds_phrase_and_weight() {
    let candidate = Candidate::new(String::from("zoo zoo zoo wrong"));
    assert_eq!(candidate.phrase(), "zoo zoo zoo wrong");
    assert_eq!(candidate.weight(), 14);
    let (phrase, weight) = candidate.into_entry();
    assert_eq!(phrase, "zoo zoo zoo wrong");
    assert_eq!(weight, 14);
}

#[test]
fn screen_drops_a_rejected_block() {
    assert!(screen(None, 46).is_none());
    assert!(screen(None, usize::MAX).is_none());
}

#[test]
fn screen_keeps_a_phrase_below_the_threshold() {
    let found = screen(Some(String::from("act act act act")), 13).unwrap();
    assert_eq!(found.phrase(), "act act act act");
    assert_eq!(found.weight(), 12);
}

#[test]
fn screen_drops_a_phrase_at_or_above_the_threshold() {
    assert!(screen(Some(String::from("act act act act")), 12).is_none());
    assert!(screen(Some(String::from("act act act act")), 11).is_none());
    assert!(screen(Some(String::from("act")), 0).is_none());
    assert!(screen(Some(String::new()), 0).is_none());
    assert!(screen(Some(String::new()), 1).is_some());
}
