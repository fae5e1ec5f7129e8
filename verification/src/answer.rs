//! What an answer is expected to hold: the intended text, its accepted
//! variants, the concepts it must and must not mention, and partial-credit
//! rules.
use vstd::prelude::*;

use crate::evaluation::{clamp_to_unit, clamped, Placement};
use crate::text::{
    chars_of, contains, has_substring, lowercase, text_eq, to_lowercase, trim, trimmed, views,
};

verus! {

/// The concepts among `concepts`, in order, whose occurrence in `text` is
/// `occurring`.
pub open spec fn select_by_occurrence(
    concepts: Seq<Seq<char>>,
    text: Seq<char>,
    occurring: bool,
) -> Seq<Seq<char>>
    decreases concepts.len(),
{
    if concepts.len() == 0 {
        seq![]
    } else {
        let rest = select_by_occurrence(concepts.drop_last(), text, occurring);
        if has_substring(text, concepts.last()) == occurring {
            rest.push(concepts.last())
        } else {
            rest
        }
    }
}

/// The concepts of `concepts` whose occurrence in `text` is `occurring`.
pub fn select_concepts(concepts: &Vec<String>, text: &Vec<char>, occurring: bool) -> (out: Vec<
    String,
>)
    ensures
        views(out@) == select_by_occurrence(views(concepts@), text@, occurring),
{
    let mut out: Vec<String> = Vec::new();
    let mut i: usize = 0;
    while i < concepts.len()
        invariant
            i <= concepts.len(),
            views(out@) == select_by_occurrence(views(concepts@).take(i as int), text@, occurring),
        decreases concepts.len() - i,
    {
        let c = concepts[i].as_str();
        let p = chars_of(c);
        let hit = crate::text::contains_chars(text, &p);
        let ghost before = out@;
        if hit == occurring {
            out.push(concepts[i].clone());
            assert(views(out@) =~= views(before).push(concepts@[i as int]@));
        }
        proof {
            let now = views(concepts@).take(i + 1);
            assert(now.drop_last() =~= views(concepts@).take(i as int));
            assert(now.last() == concepts@[i as int]@);
        }
        i = i + 1;
    }
    assert(views(concepts@).take(concepts.len() as int) =~= views(concepts@));
    out
}

/// A rule granting partial credit to a response that mentions one concept
/// and not another.
///
/// `S` is the type in which credit is measured.
pub struct PartialRule<S> {
    pub if_present: String,
    pub if_absent: String,
    pub credit: S,
}

impl<S: Copy> PartialRule<S> {
    /// A rule granting `credit`, brought into the unit interval, to
    /// responses that mention `if_present` and not `if_absent`; `at` is where
    /// `credit` stands against that interval. Both concepts are kept
    /// lowercased.
    pub fn new(if_present: &str, if_absent: &str, credit: S, at: Placement<S>) -> (r: Self)
        ensures
            r.if_present@ == lowercase(if_present@),
            r.if_absent@ == lowercase(if_absent@),
            r.credit == clamped(credit, at),
    {
        PartialRule {
            if_present: to_lowercase(if_present),
            if_absent: to_lowercase(if_absent),
            credit: clamp_to_unit(credit, at),
        }
    }
}

impl<S> PartialRule<S> {
    /// The rule applies to a response with text `text`.
    pub open spec fn applies(self, text: Seq<char>) -> bool {
        &&& has_substring(lowercase(text), self.if_present@)
        &&& !has_substring(lowercase(text), self.if_absent@)
    }

    /// Whether this rule applies to the response text `text`.
    pub fn applies_to(&self, text: &str) -> (b: bool)
        ensures
            b == self.applies(text@),
    {
        let lower = to_lowercase(text);
        contains(lower.as_str(), self.if_present.as_str()) && !contains(
            lower.as_str(),
            self.if_absent.as_str(),
        )
    }
}

/// The credits of the rules of `rules` that apply to `text`, in order.
pub open spec fn applicable_credits<S>(rules: Seq<PartialRule<S>>, text: Seq<char>) -> Seq<S>
    decreases rules.len(),
{
    if rules.len() == 0 {
        seq![]
    } else {
        let rest = applicable_credits(rules.drop_last(), text);
        if rules.last().applies(text) {
            rest.push(rules.last().credit)
        } else {
            rest
        }
    }
}

/// The intended answer to a question, with accepted variants, concept
/// requirements and partial-credit rules.
///
/// `features` is the answer's position in the meaning space; it is a function
/// of `text` that the numeric layer computes.
pub struct IntendedAnswer<S> {
    pub text: String,
    pub features: Vec<S>,
    pub acceptable_variants: Vec<String>,
    pub concepts_required: Vec<String>,
    pub concepts_forbidden: Vec<String>,
    pub partial_credit: Vec<PartialRule<S>>,
}

impl<S> IntendedAnswer<S> {
    /// An intended answer with text `text` (lowercased) at position
    /// `features` in the meaning space, with no variants, concepts or rules.
    pub fn new(text: &str, features: Vec<S>) -> (a: Self)
        ensures
            a.is_fresh(text@, features@),
    {
        IntendedAnswer {
            text: to_lowercase(text),
            features,
            acceptable_variants: Vec::new(),
            concepts_required: Vec::new(),
            concepts_forbidden: Vec::new(),
            partial_credit: Vec::new(),
        }
    }

    /// A freshly made answer for `text` at `features`: lowercased text, the
    /// given features, nothing else yet.
    pub open spec fn is_fresh(self, text: Seq<char>, features: Seq<S>) -> bool {
        &&& self.text@ == lowercase(text)
        &&& self.features@ == features
        &&& self.acceptable_variants@.len() == 0
        &&& self.concepts_required@.len() == 0
        &&& self.concepts_forbidden@.len() == 0
        &&& self.partial_credit@.len() == 0
    }

    /// Accepts `variant` (lowercased) as a full answer too.
    pub fn add_variant(&mut self, variant: &str)
        ensures
            views(final(self).acceptable_variants@) == views(old(self).acceptable_variants@).push(
                lowercase(variant@),
            ),
            final(self).text == old(self).text,
            final(self).features == old(self).features,
            final(self).concepts_required == old(self).concepts_required,
            final(self).concepts_forbidden == old(self).concepts_forbidden,
            final(self).partial_credit == old(self).partial_credit,
    {
        let v = to_lowercase(variant);
        let ghost before = self.acceptable_variants@;
        self.acceptable_variants.push(v);
        assert(views(self.acceptable_variants@) =~= views(before).push(lowercase(variant@)));
    }

    /// Requires the answer to mention `concept` (lowercased).
    pub fn require_concept(&mut self, concept: &str)
        ensures
            views(final(self).concepts_required@) == views(old(self).concepts_required@).push(
                lowercase(concept@),
            ),
            final(self).text == old(self).text,
            final(self).features == old(self).features,
            final(self).acceptable_variants == old(self).acceptable_variants,
            final(self).concepts_forbidden == old(self).concepts_forbidden,
            final(self).partial_credit == old(self).partial_credit,
    {
        let c = to_lowercase(concept);
        let ghost before = self.concepts_required@;
        self.concepts_required.push(c);
        assert(views(self.concepts_required@) =~= views(before).push(lowercase(concept@)));
    }

    /// Marks `concept` (lowercased) as a misconception when mentioned.
    pub fn forbid_concept(&mut self, concept: &str)
        ensures
            views(final(self).concepts_forbidden@) == views(old(self).concepts_forbidden@).push(
                lowercase(concept@),
            ),
            final(self).text == old(self).text,
            final(self).features == old(self).features,
            final(self).acceptable_variants == old(self).acceptable_variants,
            final(self).concepts_required == old(self).concepts_required,
            final(self).partial_credit == old(self).partial_credit,
    {
        let c = to_lowercase(concept);
        let ghost before = self.concepts_forbidden@;
        self.concepts_forbidden.push(c);
        assert(views(self.concepts_forbidden@) =~= views(before).push(lowercase(concept@)));
    }

    /// Adds a partial-credit rule.
    pub fn add_partial_credit(&mut self, rule: PartialRule<S>)
        ensures
            final(self).partial_credit@ == old(self).partial_credit@.push(rule),
            final(self).text == old(self).text,
            final(self).features == old(self).features,
            final(self).acceptable_variants == old(self).acceptable_variants,
            final(self).concepts_required == old(self).concepts_required,
            final(self).concepts_forbidden == old(self).concepts_forbidden,
    {
        self.partial_credit.push(rule);
    }

    /// The required concepts that `text`, lowercased, mentions.
    pub open spec fn required_present(self, text: Seq<char>) -> Seq<Seq<char>> {
        select_by_occurrence(views(self.concepts_required@), lowercase(text), true)
    }

    /// The forbidden concepts that `text`, lowercased, mentions.
    pub open spec fn forbidden_present(self, text: Seq<char>) -> Seq<Seq<char>> {
        select_by_occurrence(views(self.concepts_forbidden@), lowercase(text), true)
    }

    /// The required concepts that `text` mentions, in the order they were
    /// required.
    pub fn has_required_concepts(&self, text: &str) -> (found: Vec<String>)
        ensures
            views(found@) == self.required_present(text@),
    {
        let lower = to_lowercase(text);
        let v = chars_of(lower.as_str());
        select_concepts(&self.concepts_required, &v, true)
    }

    /// The forbidden concepts that `text` mentions, in the order they were
    /// forbidden.
    pub fn has_forbidden_concepts(&self, text: &str) -> (found: Vec<String>)
        ensures
            views(found@) == self.forbidden_present(text@),
    {
        let lower = to_lowercase(text);
        let v = chars_of(lower.as_str());
        select_concepts(&self.concepts_forbidden, &v, true)
    }

    /// The credits of the partial-credit rules that apply to `text`, in the
    /// order the rules were added. The credit a response earns from them is
    /// the largest of these, or none.
    pub fn applicable_credits(&self, text: &str) -> (credits: Vec<S>) where S: Copy
        ensures
            credits@ == applicable_credits(self.partial_credit@, text@),
    {
        let mut credits: Vec<S> = Vec::new();
        let mut i: usize = 0;
        while i < self.partial_credit.len()
            invariant
                i <= self.partial_credit.len(),
                credits@ == applicable_credits(self.partial_credit@.take(i as int), text@),
            decreases self.partial_credit.len() - i,
        {
            let rule = &self.partial_credit[i];
            if rule.applies_to(text) {
                credits.push(rule.credit);
            }
            proof {
                let now = self.partial_credit@.take(i + 1);
                assert(now.drop_last() =~= self.partial_credit@.take(i as int));
                assert(now.last() == self.partial_credit@[i as int]);
            }
            i = i + 1;
        }
        assert(self.partial_credit@.take(self.partial_credit.len() as int)
            =~= self.partial_credit@);
        credits
    }

    /// `text` is the intended answer or an accepted variant, once lowercased
    /// and trimmed.
    pub open spec fn accepts_exactly(self, text: Seq<char>) -> bool {
        let t = trimmed(lowercase(text));
        ||| t == trimmed(self.text@)
        ||| exists|i: int|
            0 <= i < self.acceptable_variants@.len() && t == trimmed(
                #[trigger] self.acceptable_variants@[i]@,
            )
    }

    /// Whether `text` is the intended answer or one of its variants.
    pub fn is_exact_or_variant(&self, text: &str) -> (b: bool)
        ensures
            b == self.accepts_exactly(text@),
    {
        let lower = to_lowercase(text);
        let t = trim(lower.as_str());
        let own = trim(self.text.as_str());
        if text_eq(t.as_str(), own.as_str()) {
            return true;
        }
        let mut i: usize = 0;
        while i < self.acceptable_variants.len()
            invariant
                t@ == trimmed(lowercase(text@)),
                i <= self.acceptable_variants.len(),
                forall|k: int|
                    0 <= k < i ==> t@ != trimmed(#[trigger] self.acceptable_variants@[k]@),
            decreases self.acceptable_variants.len() - i,
        {
            let v = trim(self.acceptable_variants[i].as_str());
            if text_eq(t.as_str(), v.as_str()) {
                return true;
            }
            i = i + 1;
        }
        false
    }
}

/// Every concept selected by `select_by_occurrence` has the asked-for
/// occurrence in the text, and every concept of the list falls on exactly
/// one side: the concepts that occur and those that do not together number
/// as many as the list.
pub proof fn law_selection_partitions(concepts: Seq<Seq<char>>, text: Seq<char>)
    ensures
        forall|occurring: bool, i: int|
            0 <= i < select_by_occurrence(concepts, text, occurring).len() ==> has_substring(
                text,
                #[trigger] select_by_occurrence(concepts, text, occurring)[i],
            ) == occurring,
        forall|occurring: bool, i: int|
            0 <= i < select_by_occurrence(concepts, text, occurring).len() ==> concepts.contains(
                #[trigger] select_by_occurrence(concepts, text, occurring)[i],
            ),
        select_by_occurrence(concepts, text, true).len() + select_by_occurrence(
            concepts,
            text,
            false,
        ).len() == concepts.len(),
    decreases concepts.len(),
{
    if concepts.len() > 0 {
        let d = concepts.drop_last();
        law_selection_partitions(d, text);
        assert forall|occurring: bool, i: int|
            0 <= i < select_by_occurrence(concepts, text, occurring).len() implies has_substring(
            text,
            #[trigger] select_by_occurrence(concepts, text, occurring)[i],
        ) == occurring && concepts.contains(select_by_occurrence(concepts, text, occurring)[i]) by {
            let rest = select_by_occurrence(d, text, occurring);
            if i < rest.len() {
                assert(select_by_occurrence(concepts, text, occurring)[i] == rest[i]);
                let k = choose|k: int| 0 <= k < d.len() && d[k] == rest[i];
                assert(concepts[k] == d[k]);
            } else {
                assert(concepts[concepts.len() - 1] == concepts.last());
            }
        }
    }
}

/// An answer accepts every variant it holds: once `add_variant(v)` has put
/// `lowercase(v)` among the variants, `is_exact_or_variant(v)` holds.
pub proof fn law_added_variant_accepted<S>(answer: IntendedAnswer<S>, variant: Seq<char>)
    requires
        views(answer.acceptable_variants@).contains(lowercase(variant)),
    ensures
        answer.accepts_exactly(variant),
{
    let k = choose|k: int|
        0 <= k < views(answer.acceptable_variants@).len() && views(answer.acceptable_variants@)[k]
            == lowercase(variant);
    assert(answer.acceptable_variants@[k]@ == lowercase(variant));
}

/// A concept is selected exactly when it is one of `concepts` and its
/// occurrence in `text` is `occurring`.
pub proof fn lemma_selection_membership(
    concepts: Seq<Seq<char>>,
    text: Seq<char>,
    occurring: bool,
    c: Seq<char>,
)
    ensures
        select_by_occurrence(concepts, text, occurring).contains(c) <==> (concepts.contains(c)
            && has_substring(text, c) == occurring),
    decreases concepts.len(),
{
    if concepts.len() > 0 {
        let d = concepts.drop_last();
        lemma_selection_membership(d, text, occurring, c);
        let rest = select_by_occurrence(d, text, occurring);
        let sel = select_by_occurrence(concepts, text, occurring);
        if concepts.contains(c) && has_substring(text, c) == occurring {
            let k = choose|k: int| 0 <= k < concepts.len() && concepts[k] == c;
            if k < d.len() {
                assert(d[k] == c);
                let r = choose|r: int| 0 <= r < rest.len() && rest[r] == c;
                if has_substring(text, concepts.last()) == occurring {
                    assert(sel[r] == c);
                }
            } else {
                assert(sel[sel.len() - 1] == c);
            }
        }
        if sel.contains(c) {
            let r = choose|r: int| 0 <= r < sel.len() && sel[r] == c;
            if r < rest.len() {
                assert(rest[r] == c);
                let k = choose|k: int| 0 <= k < d.len() && d[k] == c;
                assert(concepts[k] == c);
            } else {
                assert(concepts[concepts.len() - 1] == c);
            }
        }
    }
}

/// Finding concepts in a response ignores case: a required (or forbidden)
/// concept is found in `text` exactly when it occurs in `text` lowercased,
/// and nothing but such concepts is found.
pub proof fn law_concepts_found_in_lowercase<S>(answer: IntendedAnswer<S>, text: Seq<char>, c: Seq<char>)
    ensures
        answer.required_present(text).contains(c) <==> (views(
            answer.concepts_required@,
        ).contains(c) && has_substring(lowercase(text), c)),
        answer.forbidden_present(text).contains(c) <==> (views(
            answer.concepts_forbidden@,
        ).contains(c) && has_substring(lowercase(text), c)),
{
    lemma_selection_membership(views(answer.concepts_required@), lowercase(text), true, c);
    lemma_selection_membership(views(answer.concepts_forbidden@), lowercase(text), true, c);
}

/// A response is taken as exact only when, lowercased and trimmed, it is the
/// trimmed intended text or one trimmed accepted variant; and it is taken
/// whenever it is one of them.
pub proof fn law_exact_match_is_equality<S>(answer: IntendedAnswer<S>, text: Seq<char>)
    ensures
        answer.accepts_exactly(text) <==> (trimmed(lowercase(text)) == trimmed(answer.text@)
            || views(answer.acceptable_variants@).map_values(|v: Seq<char>| trimmed(v)).contains(
            trimmed(lowercase(text)),
        )),
{
    let t = trimmed(lowercase(text));
    let vs = views(answer.acceptable_variants@).map_values(|v: Seq<char>| trimmed(v));
    if vs.contains(t) {
        let k = choose|k: int| 0 <= k < vs.len() && vs[k] == t;
        assert(t == trimmed(answer.acceptable_variants@[k]@));
    }
    if exists|i: int|
        0 <= i < answer.acceptable_variants@.len() && t == trimmed(
            #[trigger] answer.acceptable_variants@[i]@,
        ) {
        let i = choose|i: int|
            0 <= i < answer.acceptable_variants@.len() && t == trimmed(
                #[trigger] answer.acceptable_variants@[i]@,
            );
        assert(vs[i] == t);
    }
}

} // verus!
