//! The verdict on one response: the concepts it showed and missed, its
//! misconceptions, and the feedback the student reads.
use vstd::prelude::*;

use crate::text::{
    concatenated, has_substring, join, joined, lemma_joined_holds_parts, lemma_substring_in_context,
    owned, push_str, views,
};

verus! {

/// How a score reads to the student.
#[derive(PartialEq, Eq, Structural, Clone, Copy, Debug)]
pub enum Grade {
    /// The score reaches the bar for a correct answer.
    Correct,
    /// The score is below that bar but reaches the bar for partial
    /// understanding.
    Partial,
    /// The score is below both bars.
    Wrong,
}

/// Where a measure stands against the unit interval, as the numeric layer
/// that compares measures finds it. Outside the interval, the variant holds
/// the end of the interval the measure is brought back to.
#[derive(Debug)]
pub enum Placement<S> {
    /// Below the interval; holds its lower end.
    Below(S),
    /// Inside the interval, ends included.
    Within,
    /// Above the interval; holds its upper end.
    Above(S),
}

/// A measure placed at `at`, brought into the unit interval.
pub open spec fn clamped<S>(value: S, at: Placement<S>) -> S {
    match at {
        Placement::Below(low) => low,
        Placement::Within => value,
        Placement::Above(high) => high,
    }
}

/// `value`, placed at `at`, brought into the unit interval.
pub fn clamp_to_unit<S: Copy>(value: S, at: Placement<S>) -> (c: S)
    ensures
        c == clamped(value, at),
{
    match at {
        Placement::Below(low) => low,
        Placement::Within => value,
        Placement::Above(high) => high,
    }
}

/// Evaluation of one student response. `S` is the type scores are kept in.
pub struct TutorEvaluation<S> {
    pub response: String,
    pub score: S,
    pub understood: bool,
    pub concepts_present: Vec<String>,
    pub concepts_missing: Vec<String>,
    pub misconceptions: Vec<String>,
    pub feedback: String,
    pub credit: S,
}

/// The feedback a student with grade `grade` reads, where `missing` are the
/// required concepts the response lacked.
pub open spec fn feedback_text(grade: Grade, missing: Seq<Seq<char>>) -> Seq<char> {
    match grade {
        Grade::Correct => "Great work! You've got it."@,
        Grade::Partial => "You're on the right track! Consider reviewing: "@ + (if missing.len()
            == 0 {
            "some details"@
        } else {
            joined(missing, ", "@)
        }) + "."@,
        Grade::Wrong => "Not quite, but that's okay — learning is a process. Try again!"@,
    }
}

impl<S: Copy> TutorEvaluation<S> {
    /// An evaluation of `response` with score `score` brought into the unit
    /// interval, where `at` is where `score` stands against that interval
    /// and `grade` is the grade `score` earns; the credit starts equal to the
    /// brought-in score, and the response counts as understood when its
    /// grade is correct. No concepts, misconceptions or feedback yet.
    pub fn new(response: &str, score: S, at: Placement<S>, grade: Grade) -> (e: Self)
        ensures
            e.response@ == response@,
            e.score == clamped(score, at),
            e.credit == clamped(score, at),
            e.understood == (grade == Grade::Correct),
            e.concepts_present@.len() == 0,
            e.concepts_missing@.len() == 0,
            e.misconceptions@.len() == 0,
            e.feedback@.len() == 0,
    {
        let within = clamp_to_unit(score, at);
        TutorEvaluation {
            response: owned(response),
            score: within,
            understood: grade == Grade::Correct,
            concepts_present: Vec::new(),
            concepts_missing: Vec::new(),
            misconceptions: Vec::new(),
            feedback: String::new(),
            credit: within,
        }
    }

    /// Encouraging feedback for a response of grade `grade`.
    pub fn feedback_for_student(&self, grade: Grade) -> (f: String)
        ensures
            f@ == feedback_text(grade, views(self.concepts_missing@)),
    {
        match grade {
            Grade::Correct => owned("Great work! You've got it."),
            Grade::Partial => {
                let missing = if self.concepts_missing.len() == 0 {
                    owned("some details")
                } else {
                    join(&self.concepts_missing, ", ")
                };
                let mut f = concatenated("You're on the right track! Consider reviewing: ", missing.as_str());
                push_str(&mut f, ".");
                f
            },
            Grade::Wrong => owned("Not quite, but that's okay — learning is a process. Try again!"),
        }
    }
}

/// A partially right response whose missing concepts are `missing` is told
/// to review exactly those concepts when there are any: the feedback names
/// them all, in order and separated by ", ", and so holds each of them. Only
/// when none is missing is the student pointed at "some details". A correct
/// response is praised and a wrong one encouraged to try again, whatever is
/// missing.
pub proof fn law_partial_feedback_names_missing(missing: Seq<Seq<char>>)
    ensures
        feedback_text(Grade::Correct, missing) == "Great work! You've got it."@,
        feedback_text(Grade::Wrong, missing)
            == "Not quite, but that's okay — learning is a process. Try again!"@,
        missing.len() > 0 ==> feedback_text(Grade::Partial, missing)
            == "You're on the right track! Consider reviewing: "@ + joined(missing, ", "@) + "."@,
        forall|i: int|
            0 <= i < missing.len() ==> has_substring(
                feedback_text(Grade::Partial, missing),
                #[trigger] missing[i],
            ),
        missing.len() == 0 ==> feedback_text(Grade::Partial, missing)
            == "You're on the right track! Consider reviewing: some details."@,
{
    assert forall|i: int| 0 <= i < missing.len() implies has_substring(
        feedback_text(Grade::Partial, missing),
        #[trigger] missing[i],
    ) by {
        lemma_joined_holds_parts(missing, ", "@, i);
        lemma_substring_in_context(
            "You're on the right track! Consider reviewing: "@,
            joined(missing, ", "@),
            "."@,
            missing[i],
        );
    }
    if missing.len() == 0 {
        reveal_strlit("You're on the right track! Consider reviewing: ");
        reveal_strlit("some details");
        reveal_strlit(".");
        reveal_strlit("You're on the right track! Consider reviewing: some details.");
        assert("You're on the right track! Consider reviewing: "@ + "some details"@ + "."@
            =~= "You're on the right track! Consider reviewing: some details."@);
    }
}

} // verus!
