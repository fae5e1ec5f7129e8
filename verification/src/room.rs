//! A room where students beam in, work through lessons, and beam out.
use vstd::prelude::*;

use crate::lesson::TutorLesson;
use crate::space::{DistanceMetric, MeaningSpace};
use crate::student::{law_update_files_concept, lesson_recorded, strengths_updated, StudentRecord};
use crate::text::{copy_strings, owned, slug, slug_id, text_eq, views};

verus! {

/// Where a student stands in a room: the lesson the student is on, and a
/// question position that starts at 0 on each lesson.
pub struct Progress {
    pub student_id: String,
    pub lesson: usize,
    pub question: usize,
}

/// What a student learns on entering a room.
pub struct Arrival {
    pub topic: String,
    /// The title of the lesson the student is on, if that lesson exists.
    pub current_lesson: Option<String>,
    /// The hints of that lesson's first question.
    pub hints_available: Vec<String>,
}

/// The identifier of a room on `topic`.
pub open spec fn room_id(topic: Seq<char>) -> Seq<char> {
    "room-"@ + slug(topic)
}

/// The concept tested by the question of `lesson` answered last: the one
/// before the current position, or the first one when none was answered;
/// empty when the lesson has no such question.
pub open spec fn answered_concept<S>(lesson: TutorLesson<S>) -> Seq<char> {
    let k = if lesson.current_index == 0 {
        0
    } else {
        lesson.current_index - 1
    };
    if k < lesson.questions@.len() {
        lesson.questions@[k].concept_tested@
    } else {
        seq![]
    }
}

/// A tutoring room. `S` is the type scores are kept in.
pub struct TutorRoom<S> {
    pub id: String,
    pub topic: String,
    pub lessons: Vec<TutorLesson<S>>,
    pub meaning_space: MeaningSpace,
    /// One record per student who has entered, keyed by its `student_id`.
    pub student_history: Vec<StudentRecord<S>>,
    /// One entry per student who has entered or answered.
    pub student_progress: Vec<Progress>,
}

/// No identifier occurs twice in `ids`.
pub open spec fn distinct_ids(ids: Seq<Seq<char>>) -> bool {
    forall|i: int, j: int| 0 <= i < j < ids.len() ==> ids[i] != ids[j]
}

/// The student identifiers of `records`, in order.
pub open spec fn record_ids<S>(records: Seq<StudentRecord<S>>) -> Seq<Seq<char>> {
    records.map_values(|r: StudentRecord<S>| r.student_id@)
}

/// The student identifiers of `entries`, in order.
pub open spec fn progress_ids(entries: Seq<Progress>) -> Seq<Seq<char>> {
    entries.map_values(|p: Progress| p.student_id@)
}

/// Appending an identifier that does not occur keeps identifiers distinct.
pub proof fn lemma_distinct_push(ids: Seq<Seq<char>>, id: Seq<char>)
    requires
        distinct_ids(ids),
        !ids.contains(id),
    ensures
        distinct_ids(ids.push(id)),
{
    assert forall|i: int, j: int| 0 <= i < j < ids.push(id).len() implies ids.push(id)[i]
        != ids.push(id)[j] by {
        if j == ids.len() {
            assert(ids[i] == ids.push(id)[i]);
        }
    }
}

impl<S> TutorRoom<S> {
    /// No student has two records or two progress entries.
    pub open spec fn wf(self) -> bool {
        &&& distinct_ids(record_ids(self.student_history@))
        &&& distinct_ids(progress_ids(self.student_progress@))
    }

    /// The student `id` has a record.
    pub open spec fn has_record(self, id: Seq<char>) -> bool {
        record_ids(self.student_history@).contains(id)
    }

    /// The position of the record of student `id`.
    pub open spec fn record_index(self, id: Seq<char>) -> int {
        choose|i: int|
            0 <= i < self.student_history@.len() && #[trigger] record_ids(self.student_history@)[i]
                == id
    }

    /// The student `id` has a progress entry.
    pub open spec fn has_progress(self, id: Seq<char>) -> bool {
        progress_ids(self.student_progress@).contains(id)
    }

    /// The position of the progress entry of student `id`.
    pub open spec fn progress_index(self, id: Seq<char>) -> int {
        choose|i: int|
            0 <= i < self.student_progress@.len() && #[trigger] progress_ids(
                self.student_progress@,
            )[i] == id
    }

    /// The lesson the student `id` is on.
    pub open spec fn lesson_of(self, id: Seq<char>) -> int {
        self.student_progress@[self.progress_index(id)].lesson as int
    }

    /// An empty room on `topic`, with an eight-dimensional cosine meaning
    /// space.
    pub fn new(topic: &str) -> (r: Self)
        ensures
            r.id@ == room_id(topic@),
            r.topic@ == topic@,
            r.lessons@.len() == 0,
            r.meaning_space.dimension == 8,
            r.meaning_space.distance_metric == DistanceMetric::Cosine,
            r.student_history@.len() == 0,
            r.student_progress@.len() == 0,
            r.wf(),
    {
        TutorRoom {
            id: slug_id("room-", topic),
            topic: owned(topic),
            lessons: Vec::new(),
            meaning_space: MeaningSpace::new(8, DistanceMetric::Cosine),
            student_history: Vec::new(),
            student_progress: Vec::new(),
        }
    }

    /// With unique ids, the record of `id` is the one at `i`.
    pub proof fn lemma_record_index(self, id: Seq<char>, i: int)
        requires
            self.wf(),
            0 <= i < self.student_history@.len(),
            self.student_history@[i].student_id@ == id,
        ensures
            self.has_record(id),
            self.record_index(id) == i,
    {
        let ids = record_ids(self.student_history@);
        assert(ids[i] == id);
        let j = self.record_index(id);
        assert(ids[j] == id);
    }

    /// With unique ids, the progress entry of `id` is the one at `i`.
    pub proof fn lemma_progress_index(self, id: Seq<char>, i: int)
        requires
            self.wf(),
            0 <= i < self.student_progress@.len(),
            self.student_progress@[i].student_id@ == id,
        ensures
            self.has_progress(id),
            self.progress_index(id) == i,
    {
        let ids = progress_ids(self.student_progress@);
        assert(ids[i] == id);
        let j = self.progress_index(id);
        assert(ids[j] == id);
    }

    fn find_record(&self, id: &str) -> (r: Option<usize>)
        requires
            self.wf(),
        ensures
            r matches Some(i) ==> i < self.student_history@.len() && self.record_index(id@) == i
                && self.has_record(id@),
            r is None ==> !self.has_record(id@),
    {
        let mut i: usize = 0;
        while i < self.student_history.len()
            invariant
                self.wf(),
                i <= self.student_history.len(),
                forall|k: int| 0 <= k < i ==> record_ids(self.student_history@)[k] != id@,
            decreases self.student_history.len() - i,
        {
            if text_eq(self.student_history[i].student_id.as_str(), id) {
                proof {
                    self.lemma_record_index(id@, i as int);
                }
                return Some(i);
            }
            i = i + 1;
        }
        None
    }

    fn find_progress(&self, id: &str) -> (r: Option<usize>)
        requires
            self.wf(),
        ensures
            r matches Some(i) ==> i < self.student_progress@.len() && self.progress_index(id@) == i
                && self.has_progress(id@),
            r is None ==> !self.has_progress(id@),
    {
        let mut i: usize = 0;
        while i < self.student_progress.len()
            invariant
                self.wf(),
                i <= self.student_progress.len(),
                forall|k: int| 0 <= k < i ==> progress_ids(self.student_progress@)[k] != id@,
            decreases self.student_progress.len() - i,
        {
            if text_eq(self.student_progress[i].student_id.as_str(), id) {
                proof {
                    self.lemma_progress_index(id@, i as int);
                }
                return Some(i);
            }
            i = i + 1;
        }
        None
    }

    /// Whether no student has two records or two progress entries.
    pub fn is_well_formed(&self) -> (b: bool)
        ensures
            b == self.wf(),
    {
        let n = self.student_history.len();
        let mut i: usize = 0;
        while i < n
            invariant
                n == self.student_history@.len(),
                i <= n,
                forall|a: int, b: int|
                    0 <= a < i && a < b < n ==> record_ids(self.student_history@)[a] != record_ids(
                        self.student_history@,
                    )[b],
            decreases n - i,
        {
            let mut j: usize = i + 1;
            while j < n
                invariant
                    n == self.student_history@.len(),
                    i < n,
                    i < j <= n,
                    forall|b: int|
                        i < b < j ==> record_ids(self.student_history@)[i as int] != record_ids(
                            self.student_history@,
                        )[b],
                decreases n - j,
            {
                if text_eq(
                    self.student_history[i].student_id.as_str(),
                    self.student_history[j].student_id.as_str(),
                ) {
                    assert(record_ids(self.student_history@)[i as int] == record_ids(
                        self.student_history@,
                    )[j as int]);
                    return false;
                }
                j = j + 1;
            }
            i = i + 1;
        }
        let m = self.student_progress.len();
        let mut i: usize = 0;
        while i < m
            invariant
                m == self.student_progress@.len(),
                i <= m,
                distinct_ids(record_ids(self.student_history@)),
                forall|a: int, b: int|
                    0 <= a < i && a < b < m ==> progress_ids(self.student_progress@)[a]
                        != progress_ids(self.student_progress@)[b],
            decreases m - i,
        {
            let mut j: usize = i + 1;
            while j < m
                invariant
                    m == self.student_progress@.len(),
                    i < m,
                    i < j <= m,
                    forall|b: int|
                        i < b < j ==> progress_ids(self.student_progress@)[i as int]
                            != progress_ids(self.student_progress@)[b],
                decreases m - j,
            {
                if text_eq(
                    self.student_progress[i].student_id.as_str(),
                    self.student_progress[j].student_id.as_str(),
                ) {
                    assert(progress_ids(self.student_progress@)[i as int] == progress_ids(
                        self.student_progress@,
                    )[j as int]);
                    return false;
                }
                j = j + 1;
            }
            i = i + 1;
        }
        true
    }

    /// Adds a lesson at the end of the room's sequence.
    pub fn add_lesson(&mut self, lesson: TutorLesson<S>)
        ensures
            final(self).lessons@ == old(self).lessons@.push(lesson),
            final(self).id == old(self).id,
            final(self).topic == old(self).topic,
            final(self).meaning_space == old(self).meaning_space,
            final(self).student_history == old(self).student_history,
            final(self).student_progress == old(self).student_progress,
    {
        self.lessons.push(lesson);
    }

    /// Gives the student `id` a progress entry at the first lesson if it has
    /// none, and returns the position of its entry.
    fn ensure_progress(&mut self, id: &str) -> (pi: usize)
        requires
            old(self).wf(),
        ensures
            final(self).wf(),
            final(self).id == old(self).id,
            final(self).topic == old(self).topic,
            final(self).lessons == old(self).lessons,
            final(self).meaning_space == old(self).meaning_space,
            final(self).student_history == old(self).student_history,
            old(self).has_progress(id@) ==> final(self).student_progress == old(
                self,
            ).student_progress,
            !old(self).has_progress(id@) ==> final(self).student_progress@.len() == old(
                self,
            ).student_progress@.len() + 1 && final(self).student_progress@.drop_last() == old(
                self,
            ).student_progress@ && final(self).student_progress@.last().student_id@ == id@
                && final(self).student_progress@.last().lesson == 0
                && final(self).student_progress@.last().question == 0,
            final(self).has_progress(id@),
            pi == final(self).progress_index(id@),
            pi < final(self).student_progress@.len(),
    {
        match self.find_progress(id) {
            Some(pi) => pi,
            None => {
                let ghost before = self.student_progress@;
                self.student_progress.push(Progress { student_id: owned(id), lesson: 0, question: 0 });
                let pi = self.student_progress.len() - 1;
                proof {
                    assert(self.student_progress@.drop_last() == before);
                    assert(progress_ids(self.student_progress@) =~= progress_ids(before).push(id@));
                    lemma_distinct_push(progress_ids(before), id@);
                    self.lemma_progress_index(id@, pi as int);
                }
                pi
            },
        }
    }

    /// The student `id` enters the room. A student seen for the first time
    /// gets a record, whose running total starts at `fresh_total`, and a
    /// progress entry at the first lesson. The arrival names the lesson the
    /// student is on and the hints of its first question.
    pub fn beam_in(&mut self, student_id: &str, fresh_total: S) -> (a: Arrival)
        requires
            old(self).wf(),
        ensures
            final(self).wf(),
            final(self).id == old(self).id,
            final(self).topic == old(self).topic,
            final(self).lessons == old(self).lessons,
            final(self).meaning_space == old(self).meaning_space,
            old(self).has_record(student_id@) ==> final(self).student_history == old(
                self,
            ).student_history,
            !old(self).has_record(student_id@) ==> {
                &&& final(self).student_history@.len() == old(self).student_history@.len() + 1
                &&& final(self).student_history@.drop_last() == old(self).student_history@
                &&& final(self).student_history@.last().is_fresh(student_id@, fresh_total)
            },
            old(self).has_progress(student_id@) ==> final(self).student_progress == old(
                self,
            ).student_progress,
            !old(self).has_progress(student_id@) ==> {
                &&& final(self).student_progress@.len() == old(self).student_progress@.len() + 1
                &&& final(self).student_progress@.drop_last() == old(self).student_progress@
                &&& final(self).student_progress@.last().student_id@ == student_id@
                &&& final(self).student_progress@.last().lesson == 0
                &&& final(self).student_progress@.last().question == 0
            },
            final(self).has_record(student_id@),
            final(self).has_progress(student_id@),
            old(self).has_record(student_id@) && old(self).has_progress(student_id@)
                ==> *final(self) == *old(self),
            a.topic@ == old(self).topic@,
            ({
                let l = final(self).lesson_of(student_id@);
                &&& l < old(self).lessons@.len() ==> a.current_lesson is Some
                    && a.current_lesson->0@ == old(self).lessons@[l].title@
                &&& l >= old(self).lessons@.len() ==> a.current_lesson is None
                &&& a.hints_available@ == if l < old(self).lessons@.len()
                    && old(self).lessons@[l].questions@.len() > 0 {
                    old(self).lessons@[l].questions@[0].hints@
                } else {
                    Seq::<String>::empty()
                }
            }),
    {
        match self.find_record(student_id) {
            Some(_) => {},
            None => {
                let ghost before = self.student_history@;
                self.student_history.push(StudentRecord::new(student_id, fresh_total));
                proof {
                    let last = (self.student_history@.len() - 1) as int;
                    assert(self.student_history@.drop_last() == before);
                    assert(record_ids(self.student_history@) =~= record_ids(before).push(student_id@));
                    lemma_distinct_push(record_ids(before), student_id@);
                    self.lemma_record_index(student_id@, last);
                }
            },
        }
        let pi = self.ensure_progress(student_id);
        let l = self.student_progress[pi].lesson;
        let current_lesson = if l < self.lessons.len() {
            Some(self.lessons[l].title.clone())
        } else {
            None
        };
        let hints_available = if l < self.lessons.len() && self.lessons[l].questions.len() > 0 {
            copy_strings(&self.lessons[l].questions[0].hints)
        } else {
            Vec::new()
        };
        Arrival { topic: self.topic.clone(), current_lesson, hints_available }
    }

    /// Beaming out now closes a lesson: the student is on a lesson that
    /// exists and has been answered through.
    pub open spec fn closes_lesson(self, id: Seq<char>) -> bool {
        &&& self.has_progress(id)
        &&& self.lesson_of(id) < self.lessons@.len()
        &&& self.lessons@[self.lesson_of(id)].complete()
    }

    /// The lesson that beaming out would close for the student `id`, if any.
    pub fn completed_lesson(&self, student_id: &str) -> (r: Option<usize>)
        requires
            self.wf(),
        ensures
            r == if self.closes_lesson(student_id@) {
                Some(self.lesson_of(student_id@) as usize)
            } else {
                None
            },
    {
        match self.find_progress(student_id) {
            None => None,
            Some(pi) => {
                let l = self.student_progress[pi].lesson;
                if l < self.lessons.len() && self.lessons[l].is_complete() {
                    Some(l)
                } else {
                    None
                }
            },
        }
    }

    /// The student `id` leaves the room. When the lesson the student is on
    /// has been answered through, it is recorded as completed (and as
    /// passed when `passed`) and the student moves on to the next lesson.
    /// Otherwise nothing changes.
    pub fn beam_out(&mut self, student_id: &str, passed: bool)
        requires
            old(self).wf(),
        ensures
            final(self).wf(),
            !old(self).closes_lesson(student_id@) ==> *final(self) == *old(self),
            old(self).closes_lesson(student_id@) ==> {
                let pi = old(self).progress_index(student_id@);
                let l = old(self).lesson_of(student_id@);
                &&& final(self).student_progress@.len() == old(self).student_progress@.len()
                &&& forall|k: int|
                    0 <= k < old(self).student_progress@.len() && k != pi
                        ==> final(self).student_progress@[k] == old(self).student_progress@[k]
                &&& final(self).student_progress@[pi].student_id == old(
                    self,
                ).student_progress@[pi].student_id
                &&& final(self).student_progress@[pi].lesson == l + 1
                &&& final(self).student_progress@[pi].question == 0
                &&& old(self).has_record(student_id@) ==> {
                    let ri = old(self).record_index(student_id@);
                    &&& final(self).student_history@.len() == old(self).student_history@.len()
                    &&& forall|k: int|
                        0 <= k < old(self).student_history@.len() && k != ri
                            ==> final(self).student_history@[k] == old(self).student_history@[k]
                    &&& lesson_recorded(
                        old(self).student_history@[ri],
                        final(self).student_history@[ri],
                        old(self).lessons@[l].id@,
                        passed,
                    )
                }
                &&& !old(self).has_record(student_id@) ==> final(self).student_history == old(
                    self,
                ).student_history
                &&& final(self).lessons == old(self).lessons
                &&& final(self).id == old(self).id
                &&& final(self).topic == old(self).topic
                &&& final(self).meaning_space == old(self).meaning_space
            },
    {
        let pi = match self.find_progress(student_id) {
            None => return ,
            Some(pi) => pi,
        };
        let l = self.student_progress[pi].lesson;
        if l < self.lessons.len() && self.lessons[l].is_complete() {
            let ghost old_history = self.student_history@;
            match self.find_record(student_id) {
                Some(ri) => {
                    let lesson_id = self.lessons[l].id.clone();
                    self.student_history[ri].record_lesson(lesson_id.as_str(), passed);
                    proof {
                        assert(record_ids(self.student_history@) =~= record_ids(old_history));
                    }
                },
                None => {},
            }
            let ghost old_progress = self.student_progress@;
            self.student_progress[pi].lesson = l + 1;
            self.student_progress[pi].question = 0;
            proof {
                assert(progress_ids(self.student_progress@) =~= progress_ids(old_progress));
            }
        }
    }

    /// The record of the student `id`, if the student has entered.
    pub fn student_status(&self, student_id: &str) -> (r: Option<&StudentRecord<S>>)
        requires
            self.wf(),
        ensures
            r matches Some(rec) ==> self.has_record(student_id@) && *rec
                == self.student_history@[self.record_index(student_id@)],
            r is None ==> !self.has_record(student_id@),
    {
        match self.find_record(student_id) {
            Some(ri) => Some(&self.student_history[ri]),
            None => None,
        }
    }

    /// Where a response from the student `id` goes: the student gets a
    /// progress entry at the first lesson if it has none, and the lesson the
    /// student is on is returned if it exists.
    pub fn lesson_in_progress(&mut self, student_id: &str) -> (r: Option<usize>)
        requires
            old(self).wf(),
        ensures
            final(self).wf(),
            final(self).id == old(self).id,
            final(self).topic == old(self).topic,
            final(self).lessons == old(self).lessons,
            final(self).meaning_space == old(self).meaning_space,
            final(self).student_history == old(self).student_history,
            old(self).has_progress(student_id@) ==> final(self).student_progress == old(
                self,
            ).student_progress,
            !old(self).has_progress(student_id@) ==> {
                &&& final(self).student_progress@.len() == old(self).student_progress@.len() + 1
                &&& final(self).student_progress@.drop_last() == old(self).student_progress@
                &&& final(self).student_progress@.last().student_id@ == student_id@
                &&& final(self).student_progress@.last().lesson == 0
                &&& final(self).student_progress@.last().question == 0
            },
            final(self).has_progress(student_id@),
            r == if final(self).lesson_of(student_id@) < final(self).lessons@.len() {
                Some(final(self).lesson_of(student_id@) as usize)
            } else {
                None
            },
    {
        let pi = self.ensure_progress(student_id);
        let l = self.student_progress[pi].lesson;
        if l < self.lessons.len() {
            Some(l)
        } else {
            None
        }
    }

    /// If the student `id` has a record and the question of lesson `lesson`
    /// answered last tests a concept, that concept is filed as a strength
    /// when `strong`, else as a weakness.
    fn note_outcome(&mut self, student_id: &str, lesson: usize, strong: bool)
        requires
            old(self).wf(),
            lesson < old(self).lessons@.len(),
        ensures
            final(self).wf(),
            final(self).id == old(self).id,
            final(self).topic == old(self).topic,
            final(self).lessons == old(self).lessons,
            final(self).meaning_space == old(self).meaning_space,
            final(self).student_progress == old(self).student_progress,
            ({
                let concept = answered_concept(old(self).lessons@[lesson as int]);
                if old(self).has_record(student_id@) && concept.len() > 0 {
                    let ri = old(self).record_index(student_id@);
                    &&& final(self).student_history@.len() == old(self).student_history@.len()
                    &&& forall|k: int|
                        0 <= k < old(self).student_history@.len() && k != ri
                            ==> final(self).student_history@[k] == old(self).student_history@[k]
                    &&& strengths_updated(
                        old(self).student_history@[ri],
                        final(self).student_history@[ri],
                        concept,
                        strong,
                    )
                    &&& old(self).student_history@[ri].balanced()
                        ==> final(self).student_history@[ri].balanced()
                } else {
                    final(self).student_history == old(self).student_history
                }
            }),
    {
        let ri = match self.find_record(student_id) {
            None => return ,
            Some(ri) => ri,
        };
        let cur = self.lessons[lesson].current_index;
        let k = if cur == 0 { 0 } else { cur - 1 };
        if k < self.lessons[lesson].questions.len() {
            let concept = self.lessons[lesson].questions[k].concept_tested.clone();
            if !concept.as_str().is_empty() {
                let ghost old_history = self.student_history@;
                self.student_history[ri].update_strengths(concept.as_str(), strong);
                proof {
                    assert(record_ids(self.student_history@) =~= record_ids(old_history));
                }
            }
        }
    }

    /// Records a scored response of the student `id` in lesson `lesson`, the
    /// lesson `lesson_in_progress` gave for the student. If a question is
    /// left, it earns `credit` and the lesson moves on; a lesson answered
    /// through records nothing. Then, if the student has a record and the
    /// question answered last tests a concept, the concept is filed as a
    /// strength when `strong`, else as a weakness: it ends up among the
    /// strengths exactly when `strong`.
    pub fn record_answer(&mut self, student_id: &str, lesson: usize, credit: S, strong: bool)
        requires
            old(self).wf(),
            lesson < old(self).lessons@.len(),
        ensures
            final(self).wf(),
            final(self).id == old(self).id,
            final(self).topic == old(self).topic,
            final(self).meaning_space == old(self).meaning_space,
            final(self).student_progress == old(self).student_progress,
            final(self).lessons@.len() == old(self).lessons@.len(),
            forall|k: int|
                0 <= k < old(self).lessons@.len() && k != lesson ==> final(self).lessons@[k] == old(
                    self,
                ).lessons@[k],
            ({
                let before = old(self).lessons@[lesson as int];
                let after = final(self).lessons@[lesson as int];
                &&& !before.complete() ==> {
                    &&& after.scores@ == before.scores@.push(credit)
                    &&& after.current_index == before.current_index + 1
                    &&& after.questions == before.questions
                    &&& after.id == before.id
                    &&& after.title == before.title
                    &&& after.topic == before.topic
                    &&& after.threshold == before.threshold
                    &&& answered_concept(after) == before.questions@[before.current_index as int].concept_tested@
                }
                &&& before.complete() ==> after == before
            }),
            ({
                let concept = answered_concept(final(self).lessons@[lesson as int]);
                if old(self).has_record(student_id@) && concept.len() > 0 {
                    let ri = old(self).record_index(student_id@);
                    &&& final(self).student_history@.len() == old(self).student_history@.len()
                    &&& forall|k: int|
                        0 <= k < old(self).student_history@.len() && k != ri
                            ==> final(self).student_history@[k] == old(self).student_history@[k]
                    &&& strengths_updated(
                        old(self).student_history@[ri],
                        final(self).student_history@[ri],
                        concept,
                        strong,
                    )
                    &&& views(final(self).student_history@[ri].strengths@).contains(concept)
                        == strong
                    &&& old(self).student_history@[ri].balanced()
                        ==> final(self).student_history@[ri].balanced()
                } else {
                    final(self).student_history == old(self).student_history
                }
            }),
    {
        let ghost old_lessons = self.lessons@;
        if !self.lessons[lesson].is_complete() {
            self.lessons[lesson].record_credit(credit);
        }
        proof {
            assert forall|k: int|
                0 <= k < old_lessons.len() && k != lesson implies self.lessons@[k] == old_lessons[k] by {}
        }
        let ghost mid = *self;
        self.note_outcome(student_id, lesson, strong);
        proof {
            let concept = answered_concept(mid.lessons@[lesson as int]);
            if mid.has_record(student_id@) && concept.len() > 0 {
                let ri = mid.record_index(student_id@);
                law_update_files_concept(
                    mid.student_history@[ri],
                    self.student_history@[ri],
                    concept,
                    strong,
                );
            }
        }
    }
}

/// Beaming out closes a lesson only once every question of the student's
/// current lesson has been answered: while its position is below its number
/// of questions, nothing is closed (and so `beam_out` leaves the room as it
/// is and `completed_lesson` gives `None`).
pub proof fn law_closing_needs_every_question_answered<S>(room: TutorRoom<S>, id: Seq<char>)
    ensures
        room.closes_lesson(id) <==> ({
            &&& room.has_progress(id)
            &&& room.lesson_of(id) < room.lessons@.len()
            &&& room.lessons@[room.lesson_of(id)].current_index >= room.lessons@[room.lesson_of(
                id,
            )].questions@.len()
        }),
{
}

} // verus!
