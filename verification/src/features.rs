//! The parts of a response's embedding that are decided on its text alone:
//! word structure, negation, punctuation and keyword presence. Turning them
//! into coordinates is the numeric layer's work.
use vstd::prelude::*;

use vstd::string::StringSliceAdditionalSpecFns;

use crate::text::{contains, contains_char, has_substring, lowercase, split_words, to_lowercase, text_eq, words};

verus! {

/// The words whose presence marks a response as negated.
pub open spec fn is_negation_word(w: Seq<char>) -> bool {
    ||| w == "not"@
    ||| w == "no"@
    ||| w == "never"@
    ||| w == "neither"@
    ||| w == "nor"@
    ||| w == "cannot"@
    ||| w == "can't"@
    ||| w == "don't"@
    ||| w == "doesn't"@
    ||| w == "isn't"@
    ||| w == "aren't"@
    ||| w == "won't"@
    ||| w == "wouldn't"@
}

/// Whether `w` is one of the negation words.
pub fn negation_word(w: &str) -> (b: bool)
    ensures
        b == is_negation_word(w@),
{
    text_eq(w, "not") || text_eq(w, "no") || text_eq(w, "never") || text_eq(w, "neither")
        || text_eq(w, "nor") || text_eq(w, "cannot") || text_eq(w, "can't") || text_eq(w, "don't")
        || text_eq(w, "doesn't") || text_eq(w, "isn't") || text_eq(w, "aren't") || text_eq(
        w,
        "won't",
    ) || text_eq(w, "wouldn't")
}

/// Some word of `text`, lowercased, is a negation word.
pub open spec fn negated(text: Seq<char>) -> bool {
    exists|i: int| 0 <= i < words(text).len() && is_negation_word(lowercase(#[trigger] words(text)[i]))
}

/// What the text of a response shows before any number is attached to it.
pub struct TextProfile {
    /// Length of the text in bytes of UTF-8.
    pub byte_len: usize,
    /// Number of white-space separated words.
    pub word_count: usize,
    /// Some word is a negation.
    pub has_negation: bool,
    /// The text holds a question mark.
    pub has_question: bool,
    /// The text holds an exclamation mark.
    pub has_exclamation: bool,
}

/// The text profile of `text`.
pub fn profile_text(text: &str) -> (p: TextProfile)
    ensures
        p.byte_len == text.spec_bytes().len() as usize,
        p.word_count == words(text@).len(),
        p.has_negation == negated(text@),
        p.has_question == text@.contains('?'),
        p.has_exclamation == text@.contains('!'),
{
    let ws = split_words(text);
    let mut has_negation = false;
    let mut i: usize = 0;
    while i < ws.len()
        invariant
            ws@.len() == words(text@).len(),
            forall|k: int| 0 <= k < ws@.len() ==> #[trigger] ws@[k]@ == words(text@)[k],
            i <= ws.len(),
            has_negation == exists|k: int|
                0 <= k < i && is_negation_word(lowercase(#[trigger] words(text@)[k])),
        decreases ws.len() - i,
    {
        let lw = to_lowercase(ws[i].as_str());
        let hit = negation_word(lw.as_str());
        proof {
            assert(ws@[i as int]@ == words(text@)[i as int]);
            if hit {
                assert(is_negation_word(lowercase(words(text@)[i as int])));
            }
        }
        has_negation = has_negation || hit;
        i = i + 1;
    }
    TextProfile {
        byte_len: text.len(),
        word_count: ws.len(),
        has_negation,
        has_question: contains_char(text, '?'),
        has_exclamation: contains_char(text, '!'),
    }
}

/// For each keyword, whether it occurs in `text` once both are lowercased.
pub fn keyword_flags(text: &str, keywords: &[&str]) -> (flags: Vec<bool>)
    ensures
        flags@.len() == keywords@.len(),
        forall|k: int|
            0 <= k < keywords@.len() ==> #[trigger] flags@[k] == has_substring(
                lowercase(text@),
                lowercase(keywords@[k]@),
            ),
{
    let lower = to_lowercase(text);
    let mut flags: Vec<bool> = Vec::new();
    let mut i: usize = 0;
    while i < keywords.len()
        invariant
            lower@ == lowercase(text@),
            i <= keywords.len(),
            flags@.len() == i,
            forall|k: int|
                0 <= k < i ==> #[trigger] flags@[k] == has_substring(
                    lowercase(text@),
                    lowercase(keywords@[k]@),
                ),
        decreases keywords.len() - i,
    {
        let kw = to_lowercase(keywords[i]);
        flags.push(contains(lower.as_str(), kw.as_str()));
        i = i + 1;
    }
    flags
}

/// A text is marked negated exactly when one of its white-space separated
/// words, lowercased, is one of: not, no, never, neither, nor, cannot,
/// can't, don't, doesn't, isn't, aren't, won't, wouldn't.
pub proof fn law_negation_by_word(text: Seq<char>)
    ensures
        negated(text) <==> exists|i: int|
            0 <= i < words(text).len() && seq![
                "not"@,
                "no"@,
                "never"@,
                "neither"@,
                "nor"@,
                "cannot"@,
                "can't"@,
                "don't"@,
                "doesn't"@,
                "isn't"@,
                "aren't"@,
                "won't"@,
                "wouldn't"@,
            ].contains(lowercase(#[trigger] words(text)[i])),
{
    let list = seq![
        "not"@,
        "no"@,
        "never"@,
        "neither"@,
        "nor"@,
        "cannot"@,
        "can't"@,
        "don't"@,
        "doesn't"@,
        "isn't"@,
        "aren't"@,
        "won't"@,
        "wouldn't"@,
    ];
    assert forall|w: Seq<char>| is_negation_word(w) <==> list.contains(w) by {
        if list.contains(w) {
            let k = choose|k: int| 0 <= k < list.len() && list[k] == w;
            assert(is_negation_word(w));
        }
        if is_negation_word(w) {
            if w == "not"@ { assert(list[0] == w); }
            else if w == "no"@ { assert(list[1] == w); }
            else if w == "never"@ { assert(list[2] == w); }
            else if w == "neither"@ { assert(list[3] == w); }
            else if w == "nor"@ { assert(list[4] == w); }
            else if w == "cannot"@ { assert(list[5] == w); }
            else if w == "can't"@ { assert(list[6] == w); }
            else if w == "don't"@ { assert(list[7] == w); }
            else if w == "doesn't"@ { assert(list[8] == w); }
            else if w == "isn't"@ { assert(list[9] == w); }
            else if w == "aren't"@ { assert(list[10] == w); }
            else if w == "won't"@ { assert(list[11] == w); }
            else { assert(list[12] == w); }
        }
    }
}

} // verus!
