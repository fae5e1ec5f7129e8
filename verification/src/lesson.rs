//! A lesson: an ordered run of questions, answered one after another.
use vstd::prelude::*;

use crate::question::TutorQuestion;
use crate::text::{owned, slug, slug_id};

verus! {

/// The identifier of a lesson titled `title`.
pub open spec fn lesson_id(title: Seq<char>) -> Seq<char> {
    "lesson-"@ + slug(title)
}

/// The status line of a lesson.
pub open spec fn status_text(complete: bool, passed: bool) -> Seq<char> {
    if !complete {
        "In Progress"@
    } else if passed {
        "Passed ✓"@
    } else {
        "Not Yet Passed"@
    }
}

/// A lesson consisting of a sequence of questions. `S` is the type scores
/// and the pass threshold are kept in.
pub struct TutorLesson<S> {
    pub id: String,
    pub title: String,
    pub topic: String,
    pub questions: Vec<TutorQuestion<S>>,
    pub current_index: usize,
    pub scores: Vec<S>,
    pub threshold: S,
}

impl<S> TutorLesson<S> {
    /// Every question answered so far has exactly one score, and no more
    /// questions were answered than the lesson has.
    pub open spec fn consistent(self) -> bool {
        &&& self.scores@.len() == self.current_index
        &&& self.current_index <= self.questions@.len()
    }

    /// All questions have been answered.
    pub open spec fn complete(self) -> bool {
        self.current_index >= self.questions@.len()
    }

    /// An empty lesson titled `title` on `topic`, passed at an average score
    /// of `threshold`.
    pub fn new(title: &str, topic: &str, threshold: S) -> (l: Self)
        ensures
            l.id@ == lesson_id(title@),
            l.title@ == title@,
            l.topic@ == topic@,
            l.questions@.len() == 0,
            l.current_index == 0,
            l.scores@.len() == 0,
            l.threshold == threshold,
            l.consistent(),
    {
        TutorLesson {
            id: slug_id("lesson-", title),
            title: owned(title),
            topic: owned(topic),
            questions: Vec::new(),
            current_index: 0,
            scores: Vec::new(),
            threshold,
        }
    }

    /// Appends a question.
    pub fn add_question(&mut self, question: TutorQuestion<S>)
        ensures
            final(self).questions@ == old(self).questions@.push(question),
            final(self).id == old(self).id,
            final(self).title == old(self).title,
            final(self).topic == old(self).topic,
            final(self).current_index == old(self).current_index,
            final(self).scores == old(self).scores,
            final(self).threshold == old(self).threshold,
            old(self).consistent() ==> final(self).consistent(),
    {
        self.questions.push(question);
    }

    /// The question to be answered next, if any is left.
    pub fn next(&mut self) -> (q: Option<&TutorQuestion<S>>)
        ensures
            *final(self) == *old(self),
            old(self).current_index < old(self).questions@.len() ==> q == Some(
                &old(self).questions@[old(self).current_index as int],
            ),
            old(self).current_index >= old(self).questions@.len() ==> q.is_none(),
    {
        if self.current_index < self.questions.len() {
            Some(&self.questions[self.current_index])
        } else {
            None
        }
    }

    /// Records the credit earned on the current question and moves on to
    /// the next one.
    pub fn record_credit(&mut self, credit: S)
        requires
            old(self).current_index < old(self).questions@.len(),
        ensures
            final(self).scores@ == old(self).scores@.push(credit),
            final(self).current_index == old(self).current_index + 1,
            final(self).questions == old(self).questions,
            final(self).id == old(self).id,
            final(self).title == old(self).title,
            final(self).topic == old(self).topic,
            final(self).threshold == old(self).threshold,
            old(self).consistent() ==> final(self).consistent(),
    {
        let n = self.questions.len();
        assert(self.current_index < n);
        self.scores.push(credit);
        self.current_index = self.current_index + 1;
    }

    /// Whether every question has been answered.
    pub fn is_complete(&self) -> (b: bool)
        ensures
            b == self.complete(),
    {
        self.current_index >= self.questions.len()
    }

    /// The status line of the lesson, given whether its average score
    /// reaches the threshold.
    pub fn status(&self, passed: bool) -> (s: String)
        ensures
            s@ == status_text(self.complete(), passed),
    {
        if !self.is_complete() {
            owned("In Progress")
        } else if passed {
            owned("Passed ✓")
        } else {
            owned("Not Yet Passed")
        }
    }
}

/// In a consistent lesson, every answered question has been scored, so the
/// lesson is complete exactly when it holds a score for every question.
pub proof fn law_complete_iff_all_scored<S>(lesson: TutorLesson<S>)
    requires
        lesson.consistent(),
    ensures
        lesson.complete() <==> lesson.scores@.len() == lesson.questions@.len(),
        lesson.scores@.len() <= lesson.questions@.len(),
{
}

} // verus!
