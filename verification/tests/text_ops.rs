use lau_plato_tutor::text::{
    chars_of, concatenated, contains, contains_char, dash_spaces, is_space_char, join, owned,
    prefix_within_bytes, slug_id, split_words, text_eq, to_lowercase, trim,
};

const SAMPLES: [&str; 12] = [
    "",
    "   ",
    "energy is conserved",
    "  Energy\tis \n conserved  ",
    "\u{a0}non-breaking\u{2003}spaces\u{3000}",
    "kinetic",
    "Ünïcödé Wörds",
    "x",
    "a  b   c",
    "trailing ",
    " leading",
    "ümlaut at the start",
];

#[test]
fn space_matches_char_is_whitespace() {
    for u in 0u32..=0x10FFFF {
        if let Some(c) = char::from_u32(u) {
            assert_eq!(is_space_char(c), c.is_whitespace(), "U+{:04X}", u);
        }
    }
}

#[test]
fn trim_matches_str_trim() {
    for s in SAMPLES {
        assert_eq!(trim(s), s.trim());
    }
}

#[test]
fn split_words_matches_split_whitespace() {
    for s in SAMPLES {
        let expected: Vec<String> = s.split_whitespace().map(|w| w.to_string()).collect();
        assert_eq!(split_words(s), expected);
    }
}

#[test]
fn contains_matches_str_contains() {
    let patterns = ["", "energy", "is c", "Wörds", "zzz", "conserved  ", " "];
    for s in SAMPLES {
        for p in patterns {
            assert_eq!(contains(s, p), s.contains(p), "{:?} in {:?}", p, s);
        }
        assert_eq!(contains_char(s, 'e'), s.contains('e'));
        assert_eq!(contains_char(s, '?'), s.contains('?'));
    }
}

#[test]
fn byte_prefix_matches_slicing() {
    let prompts = ["What is energy?", "Q1?", "", "Why is Diwali important?", "Éabcdefgh"];
    for p in prompts {
        let cut = p.len().min(8);
        if p.is_char_boundary(cut) {
            assert_eq!(prefix_within_bytes(p, 8), &p[..cut]);
        }
    }
    // a cut that would split a character keeps the characters before it
    assert_eq!(prefix_within_bytes("abcdefgé", 8), "abcdefg");
}

#[test]
fn lowercase_lowers() {
    assert_eq!(to_lowercase("Energy IS Conserved"), "energy is conserved");
    assert_eq!(to_lowercase("ÜBER"), "über");
}

#[test]
fn dashes_and_slugs() {
    assert_eq!(dash_spaces("a b  c"), "a-b--c");
    assert_eq!(slug_id("lesson-", "Energy Conservation"), "lesson-energy-conservation");
}

#[test]
fn join_concat_and_equality() {
    let parts = vec!["a".to_string(), "bb".to_string(), "c".to_string()];
    assert_eq!(join(&parts, ", "), "a, bb, c");
    assert_eq!(join(&Vec::new(), ", "), "");
    assert_eq!(concatenated("ab", "cd"), "abcd");
    assert_eq!(owned("xyz"), "xyz");
    assert!(text_eq("same", "same"));
    assert!(!text_eq("same", "Same"));
    assert_eq!(chars_of("héllo"), vec!['h', 'é', 'l', 'l', 'o']);
}
