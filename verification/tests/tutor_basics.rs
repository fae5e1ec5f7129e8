use lau_plato_tutor::{
    conservation_lesson, symmetry_lesson, tradition_lesson, Grade, IntendedAnswer, PartialRule,
    Placement, StudentRecord, TutorEvaluation, TutorLesson, TutorQuestion, TutorRoom,
};

/// The meaning-space position the numeric layer gives a text of `bytes`
/// bytes and `words` words, with no numbers, negation or punctuation: its
/// seven coordinates, twice, as intended answers carry them.
fn position(bytes: f64, words: f64) -> Vec<f64> {
    let once = vec![bytes / 100.0, words / 20.0, 0.0, 0.0, 0.0, 0.0, 0.0];
    let mut v = once.clone();
    v.extend(once);
    v
}

fn answer(text: &str) -> IntendedAnswer<f64> {
    let words = text.split_whitespace().count() as f64;
    IntendedAnswer::new(text, position(text.len() as f64, words))
}

fn five_positions() -> (Vec<f64>, Vec<f64>, Vec<f64>, Vec<f64>, Vec<f64>) {
    (vec![0.1], vec![0.2], vec![0.3], vec![0.4], vec![0.5])
}

fn conservation() -> TutorLesson<f64> {
    conservation_lesson(0.7, [0.3, 0.5, 0.2, 0.4, 0.6], 0.5, five_positions())
}

fn symmetry() -> TutorLesson<f64> {
    symmetry_lesson(0.7, [0.3, 0.4, 0.2, 0.5, 0.35], five_positions())
}

fn question(prompt: &str, answer_text: &str) -> TutorQuestion<f64> {
    let words = answer_text.split_whitespace().count() as f64;
    TutorQuestion::new(prompt, answer_text, position(answer_text.len() as f64, words), 0.5)
}

// --- PartialRule ---

#[test]
fn test_partial_rule_new() {
    let rule = PartialRule::new("kinetic", "destroyed", 0.5, Placement::Within);
    assert_eq!(rule.if_present, "kinetic");
    assert_eq!(rule.if_absent, "destroyed");
    assert_eq!(rule.credit, 0.5);
}

#[test]
fn test_partial_rule_clamp() {
    let rule = PartialRule::new("a", "b", 1.5, Placement::Above(1.0));
    assert_eq!(rule.credit, 1.0);
    let rule2 = PartialRule::new("a", "b", -0.5, Placement::Below(0.0));
    assert_eq!(rule2.credit, 0.0);
}

#[test]
fn test_partial_rule_applies() {
    let rule = PartialRule::new("kinetic", "destroyed", 0.5, Placement::Within);
    assert!(rule.applies_to("kinetic energy increases"));
    assert!(!rule.applies_to("kinetic energy is destroyed"));
    assert!(!rule.applies_to("potential energy increases"));
}

// --- IntendedAnswer ---

#[test]
fn test_intended_variants() {
    let a = answer("yes");
    assert!(a.is_exact_or_variant("yes"));
    assert!(!a.is_exact_or_variant("no"));
}

#[test]
fn test_intended_add_variant() {
    let mut a = answer("energy is conserved");
    a.add_variant("energy stays the same");
    assert!(a.is_exact_or_variant("energy stays the same"));
    assert!(a.is_exact_or_variant("energy is conserved"));
}

#[test]
fn test_intended_concepts() {
    let mut a = answer("energy is conserved");
    a.require_concept("energy");
    a.require_concept("conserved");
    let present = a.has_required_concepts("energy is conserved");
    assert_eq!(present.len(), 2);
    let partial = a.has_required_concepts("energy is lost");
    assert_eq!(partial.len(), 1);
    assert_eq!(partial[0], "energy");
}

#[test]
fn test_intended_forbidden() {
    let mut a = answer("energy is conserved");
    a.forbid_concept("destroyed");
    let found = a.has_forbidden_concepts("energy is destroyed");
    assert_eq!(found.len(), 1);
    let none = a.has_forbidden_concepts("energy is conserved");
    assert!(none.is_empty());
}

#[test]
fn test_intended_new() {
    let a = answer("Energy is conserved");
    assert_eq!(a.text, "energy is conserved");
    assert!(a.features.len() >= 6);
}

// --- TutorEvaluation (grades come from the numeric layer's score bands) ---

#[test]
fn test_eval_feedback_correct() {
    let e = TutorEvaluation::new("test", 0.9, Placement::Within, Grade::Correct);
    assert!(e.feedback_for_student(Grade::Correct).contains("Great"));
}

#[test]
fn test_eval_feedback_partial() {
    let mut e = TutorEvaluation::new("test", 0.5, Placement::Within, Grade::Partial);
    e.concepts_missing.push("conservation".to_string());
    let fb = e.feedback_for_student(Grade::Partial);
    assert!(fb.contains("right track") || fb.contains("Consider"));
}

#[test]
fn test_eval_feedback_wrong() {
    let e = TutorEvaluation::new("test", 0.1, Placement::Within, Grade::Wrong);
    assert!(
        e.feedback_for_student(Grade::Wrong).contains("Not quite")
            || e.feedback_for_student(Grade::Wrong).contains("okay")
    );
}

// --- TutorQuestion ---

#[test]
fn test_question_new() {
    let q = question("What is energy?", "Energy is the capacity to do work");
    assert!(!q.id.is_empty());
    assert_eq!(q.prompt, "What is energy?");
    assert!(q.hints.is_empty());
}

#[test]
fn test_question_add_hint() {
    let mut q = question("test?", "answer");
    q.add_hint("think about physics");
    assert_eq!(q.hints.len(), 1);
    assert_eq!(q.hints[0], "think about physics");
}

#[test]
fn test_question_set_explanation() {
    let mut q = question("test?", "answer");
    q.set_explanation("This is because...");
    assert_eq!(q.explanation, "This is because...");
}

// --- TutorLesson ---

#[test]
fn test_lesson_new() {
    let l: TutorLesson<f64> = TutorLesson::new("Test Lesson", "physics", 0.7);
    assert!(!l.id.is_empty());
    assert_eq!(l.title, "Test Lesson");
    assert_eq!(l.topic, "physics");
    assert!(l.questions.is_empty());
    // progress is 0 for a lesson without questions
    assert_eq!(l.current_index, 0);
}

#[test]
fn test_lesson_complete() {
    let mut l = TutorLesson::new("Test", "test", 0.7);
    l.add_question(question("Q1?", "A1"));
    // the numeric layer scores the answer "A1" as an exact match
    l.record_credit(1.0);
    assert!(l.is_complete());
}

#[test]
fn test_lesson_add_question() {
    let mut l = TutorLesson::new("Test", "test", 0.7);
    l.add_question(question("Q1?", "A1"));
    l.add_question(question("Q2?", "A2"));
    assert_eq!(l.questions.len(), 2);
}

#[test]
fn test_lesson_next() {
    let mut l = TutorLesson::new("Test", "test", 0.7);
    l.add_question(question("Q1?", "A1"));
    let q = l.next();
    assert!(q.is_some());
    assert_eq!(q.unwrap().prompt, "Q1?");
}

// --- StudentRecord ---

#[test]
fn test_student_record_new() {
    let r = StudentRecord::new("student-1", 0.0);
    assert_eq!(r.student_id, "student-1");
    assert!(r.lessons_completed.is_empty());
}

#[test]
fn test_student_record_lesson() {
    let mut r: StudentRecord<f64> = StudentRecord::new("s1", 0.0);
    r.record_lesson("lesson-1", true);
    // the running total is the numeric layer's to add to
    r.total_score += 0.8;
    assert_eq!(r.lessons_completed.len(), 1);
    assert_eq!(r.lessons_passed.len(), 1);
    assert!((r.total_score - 0.8).abs() < 0.001);
}

#[test]
fn test_student_record_strengths() {
    let mut r = StudentRecord::new("s1", 0.0);
    r.update_strengths("energy", 0.9 >= 0.7);
    assert!(r.strengths.contains(&"energy".to_string()));
    r.update_strengths("energy", 0.2 >= 0.7);
    assert!(!r.strengths.contains(&"energy".to_string()));
    assert!(r.weaknesses.contains(&"energy".to_string()));
}

// --- TutorRoom ---

#[test]
fn test_room_new() {
    let room: TutorRoom<f64> = TutorRoom::new("Physics");
    assert!(!room.id.is_empty());
    assert_eq!(room.topic, "Physics");
}

#[test]
fn test_room_beam_in() {
    let mut room = TutorRoom::new("Physics");
    room.add_lesson(conservation());
    let ctx = room.beam_in("student-1", 0.0);
    assert_eq!(ctx.topic, "Physics");
    assert!(ctx.current_lesson.is_some());
}

#[test]
fn test_room_student_status() {
    let mut room = TutorRoom::new("Physics");
    room.add_lesson(conservation());
    room.beam_in("student-1", 0.0);
    assert!(room.student_status("student-1").is_some());
    assert!(room.student_status("unknown").is_none());
}

#[test]
fn test_room_beam_out() {
    let mut room = TutorRoom::new("Physics");
    room.add_lesson(conservation());
    room.beam_in("student-1", 0.0);
    room.beam_out("student-1", false);
    // Should not panic
    assert!(room.student_status("student-1").is_some());
}

// --- Ready-made lessons ---

#[test]
fn test_conservation_lesson() {
    let lesson = conservation();
    assert_eq!(lesson.questions.len(), 5);
    assert_eq!(lesson.topic, "physics");
}

#[test]
fn test_symmetry_lesson() {
    let lesson = symmetry();
    assert_eq!(lesson.questions.len(), 5);
    assert_eq!(lesson.topic, "mathematics");
}

#[test]
fn test_tradition_lesson() {
    let lesson = tradition_lesson("Diwali", 0.7, [0.3, 0.4, 0.5, 0.45, 0.6], five_positions());
    assert_eq!(lesson.questions.len(), 5);
    assert!(lesson.title.contains("Diwali"));
}
