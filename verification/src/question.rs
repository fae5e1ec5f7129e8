//! A question, its intended answer, hints and explanation.
use vstd::prelude::*;
use vstd::string::StringSliceAdditionalSpecFns;
use vstd::utf8::{encode_utf8, is_char_boundary};

use crate::answer::{select_by_occurrence, select_concepts, IntendedAnswer};
use crate::evaluation::TutorEvaluation;
use crate::text::{
    byte_prefix, chars_of, cut_point, lemma_byte_prefix_encoding,
    lemma_cuts_cleanly_char_boundary, lemma_utf8_len, lowercase, owned, prefix_within_bytes, slug,
    slug_id, views,
};

verus! {

/// The identifier of a question with prompt `prompt`: `q-` followed by the
/// slug of the prompt's first eight bytes.
pub open spec fn question_id(prompt: Seq<char>) -> Seq<char> {
    "q-"@ + slug(byte_prefix(prompt, 8))
}

/// Each text of `v`, lowercased.
pub open spec fn lowercase_all(v: Seq<Seq<char>>) -> Seq<Seq<char>> {
    v.map_values(|x: Seq<char>| lowercase(x))
}

/// `q` asks `prompt`, intends `answer`, accepts `variants`, requires the
/// concepts `required`, forbids `forbidden`, grants partial credit by the
/// rules `rules` (concept present, concept absent, credit), tests `concept`,
/// has difficulty `difficulty`, explanation `explanation` and hints
/// `hints`, and its answer sits at `features` in the meaning space, where
/// answers, variants and concepts are kept lowercased.
pub open spec fn question_shape<S>(
    q: TutorQuestion<S>,
    prompt: Seq<char>,
    answer: Seq<char>,
    features: Seq<S>,
    variants: Seq<Seq<char>>,
    required: Seq<Seq<char>>,
    forbidden: Seq<Seq<char>>,
    rules: Seq<(Seq<char>, Seq<char>, S)>,
    concept: Seq<char>,
    difficulty: S,
    explanation: Seq<char>,
    hints: Seq<Seq<char>>,
) -> bool {
    &&& q.id@ == question_id(prompt)
    &&& q.prompt@ == prompt
    &&& q.intended.text@ == lowercase(answer)
    &&& q.intended.features@ == features
    &&& views(q.intended.acceptable_variants@) == lowercase_all(variants)
    &&& views(q.intended.concepts_required@) == lowercase_all(required)
    &&& views(q.intended.concepts_forbidden@) == lowercase_all(forbidden)
    &&& q.intended.partial_credit@.len() == rules.len()
    &&& forall|i: int|
        0 <= i < rules.len() ==> {
            &&& (#[trigger] q.intended.partial_credit@[i]).if_present@ == lowercase(rules[i].0)
            &&& q.intended.partial_credit@[i].if_absent@ == lowercase(rules[i].1)
            &&& q.intended.partial_credit@[i].credit == rules[i].2
        }
    &&& q.concept_tested@ == concept
    &&& q.difficulty == difficulty
    &&& q.explanation@ == explanation
    &&& views(q.hints@) == hints
}

/// A tutoring question with its intended answer. `S` is the type scores and
/// difficulties are kept in.
pub struct TutorQuestion<S> {
    pub id: String,
    pub prompt: String,
    pub intended: IntendedAnswer<S>,
    pub hints: Vec<String>,
    pub explanation: String,
    pub concept_tested: String,
    pub difficulty: S,
}

impl<S> TutorQuestion<S> {
    /// A question asking `prompt`, whose intended answer is `answer` at
    /// `answer_features` in the meaning space, of difficulty `difficulty`.
    /// The identifier is cut from the prompt's first eight bytes (all of
    /// them when it is shorter), which must end between two characters.
    pub fn new(prompt: &str, answer: &str, answer_features: Vec<S>, difficulty: S) -> (q: Self)
        requires
            is_char_boundary(prompt.spec_bytes(), cut_point(prompt.spec_bytes(), 8)),
        ensures
            q.id@ == question_id(prompt@),
            encode_utf8(byte_prefix(prompt@, 8)) == prompt.spec_bytes().take(
                cut_point(prompt.spec_bytes(), 8),
            ),
            q.prompt@ == prompt@,
            q.intended.is_fresh(answer@, answer_features@),
            q.hints@.len() == 0,
            q.explanation@.len() == 0,
            q.concept_tested@.len() == 0,
            q.difficulty == difficulty,
    {
        proof {
            lemma_cuts_cleanly_char_boundary(prompt@, 8);
            lemma_byte_prefix_encoding(prompt@, 8);
            lemma_utf8_len(prompt@);
        }
        let head = prefix_within_bytes(prompt, 8);
        let id = slug_id("q-", head.as_str());
        TutorQuestion {
            id,
            prompt: owned(prompt),
            intended: IntendedAnswer::new(answer, answer_features),
            hints: Vec::new(),
            explanation: String::new(),
            concept_tested: String::new(),
            difficulty,
        }
    }

    /// Adds a hint.
    pub fn add_hint(&mut self, hint: &str)
        ensures
            views(final(self).hints@) == views(old(self).hints@).push(hint@),
            final(self).id == old(self).id,
            final(self).prompt == old(self).prompt,
            final(self).intended == old(self).intended,
            final(self).explanation == old(self).explanation,
            final(self).concept_tested == old(self).concept_tested,
            final(self).difficulty == old(self).difficulty,
    {
        let ghost before = self.hints@;
        self.hints.push(owned(hint));
        assert(views(self.hints@) =~= views(before).push(hint@));
    }

    /// Sets the explanation shown after the question.
    pub fn set_explanation(&mut self, explanation: &str)
        ensures
            final(self).explanation@ == explanation@,
            final(self).id == old(self).id,
            final(self).prompt == old(self).prompt,
            final(self).intended == old(self).intended,
            final(self).hints == old(self).hints,
            final(self).concept_tested == old(self).concept_tested,
            final(self).difficulty == old(self).difficulty,
    {
        self.explanation = owned(explanation);
    }

    /// Fills in which required concepts the evaluated response showed and
    /// missed, and which forbidden concepts it mentioned. A concept counts as
    /// shown when the lowercased response mentions it, and as missed when the
    /// response as written does not.
    pub fn assess_concepts(&self, eval: &mut TutorEvaluation<S>) where S: Copy
        ensures
            views(final(eval).concepts_present@) == self.intended.required_present(old(eval).response@),
            views(final(eval).concepts_missing@) == select_by_occurrence(
                views(self.intended.concepts_required@),
                old(eval).response@,
                false,
            ),
            views(final(eval).misconceptions@) == self.intended.forbidden_present(old(eval).response@),
            final(eval).response == old(eval).response,
            final(eval).score == old(eval).score,
            final(eval).understood == old(eval).understood,
            final(eval).feedback == old(eval).feedback,
            final(eval).credit == old(eval).credit,
    {
        let present = self.intended.has_required_concepts(eval.response.as_str());
        let raw = chars_of(eval.response.as_str());
        let missing = select_concepts(&self.intended.concepts_required, &raw, false);
        let misconceptions = self.intended.has_forbidden_concepts(eval.response.as_str());
        eval.concepts_present = present;
        eval.concepts_missing = missing;
        eval.misconceptions = misconceptions;
    }
}

} // verus!
