use lau_plato_tutor::features::{keyword_flags, profile_text};
use lau_plato_tutor::{
    conservation_lesson, symmetry_lesson, tradition_lesson, Grade, IntendedAnswer, PartialRule,
    Placement, StudentRecord, TutorEvaluation, TutorLesson, TutorQuestion, TutorRoom,
};

fn five_positions() -> (Vec<f64>, Vec<f64>, Vec<f64>, Vec<f64>, Vec<f64>) {
    (vec![0.1], vec![0.2, 0.2], vec![0.3], vec![0.4], vec![0.5])
}

fn conservation() -> TutorLesson<f64> {
    conservation_lesson(0.7, [0.3, 0.5, 0.2, 0.4, 0.6], 0.5, five_positions())
}

#[test]
fn text_profile_reads_words_negation_and_punctuation() {
    let p = profile_text("energy is not destroyed!");
    assert_eq!(p.byte_len, 24);
    assert_eq!(p.word_count, 4);
    assert!(p.has_negation);
    assert!(!p.has_question);
    assert!(p.has_exclamation);
    let q = profile_text("Energy is conserved?");
    assert!(!q.has_negation);
    assert!(q.has_question);
    assert!(profile_text("I DON'T know").has_negation);
    let e = profile_text("");
    assert_eq!(e.word_count, 0);
    assert_eq!(e.byte_len, 0);
}

#[test]
fn keyword_flags_follow_lowercase_containment() {
    let flags = keyword_flags("Kinetic energy decreases", &["kinetic", "potential", "ENERGY"]);
    assert_eq!(flags, vec![true, false, true]);
}

#[test]
fn intended_answer_is_lowercased_and_trimmed_for_matching() {
    let mut a: IntendedAnswer<f64> = IntendedAnswer::new("Energy Is Conserved", vec![0.19, 0.15]);
    assert_eq!(a.text, "energy is conserved");
    assert_eq!(a.features, vec![0.19, 0.15]);
    assert!(a.is_exact_or_variant("  ENERGY is conserved "));
    a.add_variant("It Stays The Same");
    assert_eq!(a.acceptable_variants, vec!["it stays the same".to_string()]);
    assert!(a.is_exact_or_variant("it stays the same"));
    assert!(!a.is_exact_or_variant("it stays"));
}

#[test]
fn applicable_credits_lists_rules_in_order() {
    let mut a: IntendedAnswer<f64> = IntendedAnswer::new("kinetic and potential", Vec::new());
    a.add_partial_credit(PartialRule::new("kinetic", "destroyed", 0.5, Placement::Within));
    a.add_partial_credit(PartialRule::new("Energy", "nothing", 0.25, Placement::Within));
    assert_eq!(a.applicable_credits("Kinetic energy is great"), vec![0.5, 0.25]);
    assert_eq!(a.applicable_credits("kinetic is destroyed"), Vec::<f64>::new());
    assert_eq!(a.applicable_credits("energy only"), vec![0.25]);
}

#[test]
fn concept_assessment_splits_present_and_missing() {
    let mut q = TutorQuestion::new("What is energy?", "Energy is the capacity to do work", vec![1.0], 0.5);
    q.intended.require_concept("energy");
    q.intended.require_concept("capacity");
    q.intended.forbid_concept("mass");
    let mut eval = TutorEvaluation::new("energy has mass", 0.4, Placement::Within, Grade::Partial);
    q.assess_concepts(&mut eval);
    assert_eq!(eval.concepts_present, vec!["energy".to_string()]);
    assert_eq!(eval.concepts_missing, vec!["capacity".to_string()]);
    assert_eq!(eval.misconceptions, vec!["mass".to_string()]);
    assert_eq!(eval.score, 0.4);
    assert_eq!(eval.credit, 0.4);
}

#[test]
fn evaluation_brings_score_into_unit_interval() {
    let high = TutorEvaluation::new("all of it", 1.4, Placement::Above(1.0), Grade::Correct);
    assert_eq!(high.score, 1.0);
    assert_eq!(high.credit, 1.0);
    assert!(high.understood);
    let low = TutorEvaluation::new("none of it", -0.2, Placement::Below(0.0), Grade::Wrong);
    assert_eq!(low.score, 0.0);
    assert_eq!(low.credit, 0.0);
    assert!(!low.understood);
    let mid = TutorEvaluation::new("some of it", 0.5, Placement::Within, Grade::Partial);
    assert_eq!(mid.score, 0.5);
    assert!(!mid.understood);
}

#[test]
fn feedback_for_each_grade() {
    let mut e = TutorEvaluation::new("test", 0.5, Placement::Within, Grade::Partial);
    assert_eq!(e.feedback_for_student(Grade::Correct), "Great work! You've got it.");
    assert_eq!(
        e.feedback_for_student(Grade::Partial),
        "You're on the right track! Consider reviewing: some details."
    );
    e.concepts_missing.push("conservation".to_string());
    e.concepts_missing.push("energy".to_string());
    assert_eq!(
        e.feedback_for_student(Grade::Partial),
        "You're on the right track! Consider reviewing: conservation, energy."
    );
    assert_eq!(
        e.feedback_for_student(Grade::Wrong),
        "Not quite, but that's okay — learning is a process. Try again!"
    );
}

#[test]
fn identifiers_are_slugs() {
    let q: TutorQuestion<f64> = TutorQuestion::new("What is energy?", "x", vec![], 0.5);
    assert_eq!(q.id, "q-what-is-");
    let short: TutorQuestion<f64> = TutorQuestion::new("Q1?", "x", vec![], 0.5);
    assert_eq!(short.id, "q-q1?");
    let l: TutorLesson<f64> = TutorLesson::new("Physics 101", "physics", 0.7);
    assert_eq!(l.id, "lesson-physics-101");
    let r: TutorRoom<f64> = TutorRoom::new("Quantum Physics");
    assert_eq!(r.id, "room-quantum-physics");
    assert_eq!(r.meaning_space.dimension, 8);
}

#[test]
fn lesson_advances_one_question_per_recorded_credit() {
    let mut l = TutorLesson::new("Test", "test", 0.5);
    l.add_question(TutorQuestion::new("Q1?", "A1", vec![], 0.5));
    l.add_question(TutorQuestion::new("Q2?", "A2", vec![], 0.5));
    assert!(!l.is_complete());
    assert_eq!(l.status(true), "In Progress");
    l.record_credit(1.0);
    assert_eq!(l.current_index, 1);
    assert_eq!(l.next().unwrap().prompt, "Q2?");
    l.record_credit(0.25);
    assert_eq!(l.scores, vec![1.0, 0.25]);
    assert!(l.is_complete());
    assert!(l.next().is_none());
    assert_eq!(l.status(true), "Passed ✓");
    assert_eq!(l.status(false), "Not Yet Passed");
}

#[test]
fn strengths_and_weaknesses_stay_apart() {
    let mut r = StudentRecord::new("s1", 0.0);
    r.update_strengths("energy", true);
    r.update_strengths("energy", true);
    assert_eq!(r.strengths, vec!["energy".to_string()]);
    r.update_strengths("energy", false);
    assert!(!r.strengths.contains(&"energy".to_string()));
    assert_eq!(r.weaknesses, vec!["energy".to_string()]);
    r.update_strengths("units", false);
    r.update_strengths("energy", true);
    assert_eq!(r.strengths, vec!["energy".to_string()]);
    assert_eq!(r.weaknesses, vec!["units".to_string()]);
}

#[test]
fn record_lesson_lists_completion_and_pass() {
    let mut r = StudentRecord::new("s1", 0.0);
    r.record_lesson("lesson-1", true);
    r.record_lesson("lesson-2", false);
    assert_eq!(r.lessons_completed, vec!["lesson-1".to_string(), "lesson-2".to_string()]);
    assert_eq!(r.lessons_passed, vec!["lesson-1".to_string()]);
    assert_eq!(r.total_score, 0.0);
}

#[test]
fn room_flow_closes_a_completed_lesson() {
    let mut room = TutorRoom::new("Physics");
    room.add_lesson(conservation());
    room.add_lesson(symmetry_lesson(0.7, [0.3, 0.4, 0.2, 0.5, 0.35], five_positions()));
    let arrival = room.beam_in("alice", 0.0);
    assert_eq!(arrival.current_lesson.as_deref(), Some("Energy Conservation"));
    assert_eq!(
        arrival.hints_available,
        vec!["Think about what happens to the total amount of energy.".to_string()]
    );
    // beaming in again changes nothing
    let again = room.beam_in("alice", 5.0);
    assert_eq!(again.current_lesson.as_deref(), Some("Energy Conservation"));
    assert_eq!(room.student_history.len(), 1);
    assert_eq!(room.student_history[0].total_score, 0.0);

    assert_eq!(room.completed_lesson("alice"), None);
    for k in 0..5 {
        let li = room.lesson_in_progress("alice").unwrap();
        assert_eq!(li, 0);
        room.record_answer("alice", li, 0.9, k % 2 == 0);
    }
    let rec = room.student_status("alice").unwrap();
    assert!(rec.strengths.contains(&"potential-energy".to_string()));
    assert!(rec.weaknesses.contains(&"conservation-law".to_string()));

    assert_eq!(room.completed_lesson("alice"), Some(0));
    room.beam_out("alice", true);
    let rec = room.student_status("alice").unwrap();
    assert_eq!(rec.lessons_completed, vec!["lesson-energy-conservation".to_string()]);
    assert_eq!(rec.lessons_passed, vec!["lesson-energy-conservation".to_string()]);
    let arrival = room.beam_in("alice", 0.0);
    assert_eq!(arrival.current_lesson.as_deref(), Some("Symmetry Detection"));
    assert!(arrival.hints_available.is_empty());
}

#[test]
fn answering_after_completion_marks_the_last_concept() {
    let mut room = TutorRoom::new("Physics");
    let mut l = TutorLesson::new("One", "t", 0.7);
    let mut q = TutorQuestion::new("Q1?", "A1", vec![], 0.5);
    q.concept_tested = "units".to_string();
    l.add_question(q);
    room.add_lesson(l);
    room.beam_in("bob", 0.0);
    room.record_answer("bob", 0, 1.0, true);
    assert_eq!(room.student_status("bob").unwrap().strengths, vec!["units".to_string()]);
    // the lesson is complete; a further answer scores nothing and files the
    // last question's concept as a weakness
    room.record_answer("bob", 0, 0.0, false);
    assert_eq!(room.lessons[0].scores, vec![1.0]);
    let rec = room.student_status("bob").unwrap();
    assert!(rec.strengths.is_empty());
    assert_eq!(rec.weaknesses, vec!["units".to_string()]);
}

#[test]
fn unknown_students_get_progress_but_no_record_when_answering() {
    let mut room: TutorRoom<f64> = TutorRoom::new("Physics");
    room.add_lesson(conservation());
    assert_eq!(room.lesson_in_progress("carol"), Some(0));
    assert!(room.student_status("carol").is_none());
    room.record_answer("carol", 0, 0.5, true);
    assert_eq!(room.lessons[0].scores, vec![0.5]);
    assert!(room.student_history.is_empty());
    assert_eq!(room.student_progress.len(), 1);
}

#[test]
fn ready_made_lessons_hold_their_content() {
    let c = conservation();
    assert_eq!(c.id, "lesson-energy-conservation");
    assert_eq!(c.questions[0].id, "q-what-hap");
    assert_eq!(c.questions[2].intended.text, "joule");
    assert_eq!(
        c.questions[2].intended.acceptable_variants,
        vec!["joules".to_string(), "j".to_string(), "the joule".to_string()]
    );
    assert_eq!(c.questions[1].intended.partial_credit.len(), 1);
    assert_eq!(c.questions[1].intended.partial_credit[0].credit, 0.5);
    assert_eq!(c.questions[3].intended.concepts_forbidden, vec!["yes".to_string(), "destroyed".to_string()]);
    assert_eq!(c.questions[4].difficulty, 0.6);
    assert_eq!(c.questions[1].intended.features, vec![0.2, 0.2]);
    assert_eq!(lau_plato_tutor::catalog::conservation_answers()[2], "Joule");
    assert_eq!(lau_plato_tutor::catalog::tradition_answers("Diwali")[0], "Diwali is a cultural tradition");
    let t = tradition_lesson("Diwali", 0.7, [0.3, 0.4, 0.5, 0.45, 0.6], five_positions());
    assert_eq!(t.title, "Diwali Tradition");
    assert_eq!(t.id, "lesson-diwali-tradition");
    assert_eq!(t.questions[0].prompt, "What is Diwali known for?");
    assert_eq!(t.questions[0].intended.concepts_required, vec!["diwali".to_string()]);
    assert_eq!(t.questions[1].id, "q-why-is-d");
}
