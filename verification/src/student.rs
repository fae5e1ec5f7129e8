//! A student's record across lessons: what was completed and passed, and
//! which concepts are strengths or weaknesses.
use vstd::prelude::*;

use crate::text::{owned, text_eq, views};

verus! {

/// `v` with every occurrence of `x` removed, order kept.
pub open spec fn without(v: Seq<Seq<char>>, x: Seq<char>) -> Seq<Seq<char>>
    decreases v.len(),
{
    if v.len() == 0 {
        seq![]
    } else {
        let rest = without(v.drop_last(), x);
        if v.last() == x {
            rest
        } else {
            rest.push(v.last())
        }
    }
}

/// `v` with `x` appended, unless `x` is already in it.
pub open spec fn with_added(v: Seq<Seq<char>>, x: Seq<char>) -> Seq<Seq<char>> {
    if v.contains(x) {
        v
    } else {
        v.push(x)
    }
}

/// What `without` keeps: exactly the entries other than `x`.
pub proof fn lemma_without_contains(v: Seq<Seq<char>>, x: Seq<char>, y: Seq<char>)
    ensures
        without(v, x).contains(y) <==> (v.contains(y) && y != x),
    decreases v.len(),
{
    if v.len() > 0 {
        let d = v.drop_last();
        lemma_without_contains(d, x, y);
        if v.contains(y) && y != x {
            let k = choose|k: int| 0 <= k < v.len() && v[k] == y;
            if k < v.len() - 1 {
                assert(d[k] == y);
            }
        }
        if d.contains(y) {
            let k = choose|k: int| 0 <= k < d.len() && d[k] == y;
            assert(v[k] == y);
        }
        let rest = without(d, x);
        if v.last() != x {
            assert(rest.push(v.last())[rest.len() as int] == v.last());
            if rest.contains(y) {
                let k = choose|k: int| 0 <= k < rest.len() && rest[k] == y;
                assert(rest.push(v.last())[k] == y);
            }
            if rest.push(v.last()).contains(y) {
                let k = choose|k: int| 0 <= k < rest.len() + 1 && rest.push(v.last())[k] == y;
                if k < rest.len() {
                    assert(rest[k] == y);
                }
            }
        }
    }
}

/// Removing entries keeps a list free of duplicates.
pub proof fn lemma_without_no_duplicates(v: Seq<Seq<char>>, x: Seq<char>)
    requires
        v.no_duplicates(),
    ensures
        without(v, x).no_duplicates(),
    decreases v.len(),
{
    if v.len() > 0 {
        let d = v.drop_last();
        assert(d.no_duplicates()) by {
            assert forall|i: int, j: int| 0 <= i < d.len() && 0 <= j < d.len() && i != j implies d[i]
                != d[j] by {
                assert(d[i] == v[i] && d[j] == v[j]);
            }
        }
        lemma_without_no_duplicates(d, x);
        let rest = without(d, x);
        if v.last() != x {
            lemma_without_contains(d, x, v.last());
            assert(!d.contains(v.last())) by {
                if d.contains(v.last()) {
                    let k = choose|k: int| 0 <= k < d.len() && d[k] == v.last();
                    assert(v[k] == v[v.len() - 1]);
                }
            }
            let r = rest.push(v.last());
            assert forall|i: int, j: int| 0 <= i < r.len() && 0 <= j < r.len() && i != j implies r[i]
                != r[j] by {
                if i < rest.len() && j < rest.len() {
                    assert(r[i] == rest[i] && r[j] == rest[j]);
                } else if i < rest.len() {
                    assert(r[i] == rest[i]);
                    assert(rest.contains(rest[i]));
                } else {
                    assert(r[j] == rest[j]);
                    assert(rest.contains(rest[j]));
                }
            }
        }
    }
}

/// Whether the list `v` holds `x`.
pub fn list_contains(v: &Vec<String>, x: &str) -> (b: bool)
    ensures
        b == views(v@).contains(x@),
{
    let mut i: usize = 0;
    while i < v.len()
        invariant
            i <= v.len(),
            forall|k: int| 0 <= k < i ==> v@[k]@ != x@,
        decreases v.len() - i,
    {
        if text_eq(v[i].as_str(), x) {
            assert(views(v@)[i as int] == x@);
            return true;
        }
        i = i + 1;
    }
    proof {
        if views(v@).contains(x@) {
            let k = choose|k: int| 0 <= k < views(v@).len() && views(v@)[k] == x@;
            assert(v@[k]@ == x@);
        }
    }
    false
}

/// The entries of `v` other than `x`, in order.
pub fn list_without(v: &Vec<String>, x: &str) -> (out: Vec<String>)
    ensures
        views(out@) == without(views(v@), x@),
{
    let mut out: Vec<String> = Vec::new();
    let mut i: usize = 0;
    while i < v.len()
        invariant
            i <= v.len(),
            views(out@) == without(views(v@).take(i as int), x@),
        decreases v.len() - i,
    {
        let ghost before = out@;
        if !text_eq(v[i].as_str(), x) {
            out.push(v[i].clone());
            assert(views(out@) =~= views(before).push(v@[i as int]@));
        }
        proof {
            let now = views(v@).take(i + 1);
            assert(now.drop_last() =~= views(v@).take(i as int));
            assert(now.last() == v@[i as int]@);
        }
        i = i + 1;
    }
    assert(views(v@).take(v.len() as int) =~= views(v@));
    out
}

/// `new` is `old` after recording the lesson `lesson_id`, passed when
/// `passed`.
pub open spec fn lesson_recorded<S>(
    old: StudentRecord<S>,
    new: StudentRecord<S>,
    lesson_id: Seq<char>,
    passed: bool,
) -> bool {
    &&& views(new.lessons_completed@) == views(old.lessons_completed@).push(lesson_id)
    &&& views(new.lessons_passed@) == if passed {
        views(old.lessons_passed@).push(lesson_id)
    } else {
        views(old.lessons_passed@)
    }
    &&& new.student_id == old.student_id
    &&& new.total_score == old.total_score
    &&& new.strengths == old.strengths
    &&& new.weaknesses == old.weaknesses
}

/// `new` is `old` after filing `concept` as a strength (when `strong`) or a
/// weakness: it joins that list unless already there, and leaves the other.
pub open spec fn strengths_updated<S>(
    old: StudentRecord<S>,
    new: StudentRecord<S>,
    concept: Seq<char>,
    strong: bool,
) -> bool {
    &&& strong ==> views(new.strengths@) == with_added(views(old.strengths@), concept)
    &&& strong ==> views(new.weaknesses@) == without(views(old.weaknesses@), concept)
    &&& !strong ==> views(new.weaknesses@) == with_added(views(old.weaknesses@), concept)
    &&& !strong ==> views(new.strengths@) == without(views(old.strengths@), concept)
    &&& new.student_id == old.student_id
    &&& new.lessons_completed == old.lessons_completed
    &&& new.lessons_passed == old.lessons_passed
    &&& new.total_score == old.total_score
}

/// Record of a student's progress across lessons. `S` is the type scores
/// are kept in.
pub struct StudentRecord<S> {
    pub student_id: String,
    pub lessons_completed: Vec<String>,
    pub lessons_passed: Vec<String>,
    pub total_score: S,
    pub strengths: Vec<String>,
    pub weaknesses: Vec<String>,
}

impl<S> StudentRecord<S> {
    /// No concept is listed twice, and none is both a strength and a
    /// weakness.
    pub open spec fn balanced(self) -> bool {
        &&& views(self.strengths@).no_duplicates()
        &&& views(self.weaknesses@).no_duplicates()
        &&& forall|c: Seq<char>|
            views(self.strengths@).contains(c) ==> !views(self.weaknesses@).contains(c)
    }

    /// A record of `student_id` that has seen nothing yet and whose running
    /// total is `total_score`.
    pub open spec fn is_fresh(self, student_id: Seq<char>, total_score: S) -> bool {
        &&& self.student_id@ == student_id
        &&& self.lessons_completed@.len() == 0
        &&& self.lessons_passed@.len() == 0
        &&& self.total_score == total_score
        &&& self.strengths@.len() == 0
        &&& self.weaknesses@.len() == 0
    }

    /// A fresh record for `student_id` whose running total starts at
    /// `total_score`.
    pub fn new(student_id: &str, total_score: S) -> (r: Self)
        ensures
            r.is_fresh(student_id@, total_score),
            r.balanced(),
    {
        let r = StudentRecord {
            student_id: owned(student_id),
            lessons_completed: Vec::new(),
            lessons_passed: Vec::new(),
            total_score,
            strengths: Vec::new(),
            weaknesses: Vec::new(),
        };
        assert(views(r.strengths@) =~= Seq::<Seq<char>>::empty());
        assert(views(r.weaknesses@) =~= Seq::<Seq<char>>::empty());
        r
    }

    /// Records that the lesson `lesson_id` was completed, and passed when
    /// `passed`. The running total is the numeric layer's to add to.
    pub fn record_lesson(&mut self, lesson_id: &str, passed: bool)
        ensures
            lesson_recorded(*old(self), *final(self), lesson_id@, passed),
    {
        let ghost c = self.lessons_completed@;
        let ghost p = self.lessons_passed@;
        self.lessons_completed.push(owned(lesson_id));
        assert(views(self.lessons_completed@) =~= views(c).push(lesson_id@));
        if passed {
            self.lessons_passed.push(owned(lesson_id));
            assert(views(self.lessons_passed@) =~= views(p).push(lesson_id@));
        }
    }

    /// Files `concept` as a strength when `strong`, else as a weakness; it
    /// leaves the other list.
    pub fn update_strengths(&mut self, concept: &str, strong: bool)
        ensures
            strengths_updated(*old(self), *final(self), concept@, strong),
            old(self).balanced() ==> final(self).balanced(),
    {
        let ghost s0 = views(self.strengths@);
        let ghost w0 = views(self.weaknesses@);
        if strong {
            if !list_contains(&self.strengths, concept) {
                let ghost before = self.strengths@;
                self.strengths.push(owned(concept));
                assert(views(self.strengths@) =~= views(before).push(concept@));
            }
            self.weaknesses = list_without(&self.weaknesses, concept);
        } else {
            if !list_contains(&self.weaknesses, concept) {
                let ghost before = self.weaknesses@;
                self.weaknesses.push(owned(concept));
                assert(views(self.weaknesses@) =~= views(before).push(concept@));
            }
            self.strengths = list_without(&self.strengths, concept);
        }
        proof {
            if s0.no_duplicates() && w0.no_duplicates() && (forall|c: Seq<char>|
                s0.contains(c) ==> !w0.contains(c)) {
                if strong {
                    lemma_with_added(s0, concept@);
                    lemma_without_no_duplicates(w0, concept@);
                    assert forall|c: Seq<char>|
                        views(self.strengths@).contains(c) implies !views(
                        self.weaknesses@,
                    ).contains(c) by {
                        lemma_without_contains(w0, concept@, c);
                    }
                } else {
                    lemma_with_added(w0, concept@);
                    lemma_without_no_duplicates(s0, concept@);
                    assert forall|c: Seq<char>|
                        views(self.strengths@).contains(c) implies !views(
                        self.weaknesses@,
                    ).contains(c) by {
                        lemma_without_contains(s0, concept@, c);
                    }
                }
            }
        }
    }
}

/// What `with_added` holds: the old entries and `x`, still without
/// duplicates.
pub proof fn lemma_with_added(v: Seq<Seq<char>>, x: Seq<char>)
    ensures
        forall|y: Seq<char>| with_added(v, x).contains(y) <==> (v.contains(y) || y == x),
        v.no_duplicates() ==> with_added(v, x).no_duplicates(),
{
    let r = with_added(v, x);
    assert forall|y: Seq<char>| r.contains(y) <==> (v.contains(y) || y == x) by {
        if !v.contains(x) {
            if r.contains(y) {
                let k = choose|k: int| 0 <= k < r.len() && r[k] == y;
                if k < v.len() {
                    assert(v[k] == y);
                }
            }
            if v.contains(y) {
                let k = choose|k: int| 0 <= k < v.len() && v[k] == y;
                assert(r[k] == y);
            }
            if y == x {
                assert(r[v.len() as int] == x);
            }
        }
    }
    if v.no_duplicates() && !v.contains(x) {
        assert forall|i: int, j: int| 0 <= i < r.len() && 0 <= j < r.len() && i != j implies r[i]
            != r[j] by {
            if i < v.len() && j < v.len() {
            } else if i < v.len() {
                assert(v.contains(v[i]));
            } else {
                assert(v.contains(v[j]));
            }
        }
    }
}

/// After `update_strengths(concept, strong)` the concept is on the list it
/// was filed under and not on the other one.
pub proof fn law_update_files_concept<S>(
    old: StudentRecord<S>,
    new: StudentRecord<S>,
    concept: Seq<char>,
    strong: bool,
)
    requires
        strengths_updated(old, new, concept, strong),
    ensures
        strong ==> views(new.strengths@).contains(concept) && !views(new.weaknesses@).contains(
            concept,
        ),
        !strong ==> views(new.weaknesses@).contains(concept) && !views(new.strengths@).contains(
            concept,
        ),
{
    lemma_with_added(views(old.strengths@), concept);
    lemma_with_added(views(old.weaknesses@), concept);
    lemma_without_contains(views(old.strengths@), concept, concept);
    lemma_without_contains(views(old.weaknesses@), concept, concept);
}

} // verus!
