//! Ready-made lessons. The numbers they carry (difficulties, the pass
//! threshold, partial credit, the answers' positions in the meaning space)
//! are given by the caller in its own numeric type; the texts are fixed
//! here.
use vstd::prelude::*;

use crate::answer::PartialRule;
use crate::evaluation::Placement;
use crate::lesson::{lesson_id, TutorLesson};
use crate::question::{lowercase_all, question_shape, TutorQuestion};
use crate::text::{concatenated, lemma_ascii_head_cuts_cleanly, lowercase, owned, to_lowercase, views};

verus! {

/// Five questions about energy conservation, with the given difficulties and a pass threshold of
/// `threshold`; the second question grants `partial_credit`, a credit inside
/// the unit interval, for mentioning kinetic energy without its destruction.
pub fn conservation_lesson<S: Copy>(
    threshold: S,
    difficulty: [S; 5],
    partial_credit: S,
    answer_features: (Vec<S>, Vec<S>, Vec<S>, Vec<S>, Vec<S>),
) -> (l: TutorLesson<S>)
    ensures
        l.id@ == lesson_id("Energy Conservation"@),
        l.title@ == "Energy Conservation"@,
        l.topic@ == "physics"@,
        l.current_index == 0,
        l.scores@.len() == 0,
        l.threshold == threshold,
        l.consistent(),
        l.questions@.len() == 5,
        question_shape(
            l.questions@[0],
            "What happens to energy in a closed system?"@,
            "Energy is conserved, it cannot be created or destroyed"@,
            answer_features.0@,
            seq!["energy is conserved"@, "it stays the same"@, "total energy remains constant"@],
            seq!["conserved"@, "energy"@],
            seq![],
            seq![],
            "conservation"@,
            difficulty[0],
            "The First Law of Thermodynamics: energy is conserved in a closed system."@,
            seq!["Think about what happens to the total amount of energy."@],
        ),
        question_shape(
            l.questions@[1],
            "When a ball rolls uphill, what happens to its kinetic energy?"@,
            "Kinetic energy decreases and potential energy increases"@,
            answer_features.1@,
            seq!["kinetic energy goes down potential goes up"@, "it slows down and gains height"@],
            seq!["kinetic"@, "decreases"@],
            seq!["destroyed"@],
            seq![("kinetic"@, "destroyed"@, partial_credit)],
            "kinetic-potential"@,
            difficulty[1],
            "Kinetic energy converts to potential energy as the ball gains height."@,
            seq![],
        ),
        question_shape(
            l.questions@[2],
            "What is the unit of energy?"@,
            "Joule"@,
            answer_features.2@,
            seq!["joules"@, "j"@, "the joule"@],
            seq![],
            seq![],
            seq![],
            "units"@,
            difficulty[2],
            "The SI unit of energy is the Joule (J), named after James Prescott Joule."@,
            seq![],
        ),
        question_shape(
            l.questions@[3],
            "Can energy be destroyed?"@,
            "No, energy cannot be destroyed only transformed"@,
            answer_features.3@,
            seq!["no"@, "no it is conserved"@],
            seq!["no"@],
            seq!["yes"@, "destroyed"@],
            seq![],
            "conservation-law"@,
            difficulty[3],
            "Energy conservation means energy is never destroyed, only converted between forms."@,
            seq![],
        ),
        question_shape(
            l.questions@[4],
            "What type of energy does a stretched rubber band have?"@,
            "Elastic potential energy"@,
            answer_features.4@,
            seq!["potential energy"@, "elastic energy"@, "stored energy"@],
            seq!["potential"@],
            seq![],
            seq![],
            "potential-energy"@,
            difficulty[4],
            "A stretched rubber band stores elastic potential energy."@,
            seq![],
        ),
{
    let (f0, f1, f2, f3, f4) = answer_features;
    let mut lesson = TutorLesson::new("Energy Conservation", "physics", threshold);

    proof {
        reveal_strlit("What happens to energy in a closed system?");
        lemma_ascii_head_cuts_cleanly("What happens to energy in a closed system?"@, 8);
    }
    let mut q1 = TutorQuestion::new(
        "What happens to energy in a closed system?",
        "Energy is conserved, it cannot be created or destroyed",
        f0,
        difficulty[0],
    );
    q1.intended.add_variant("energy is conserved");
    q1.intended.add_variant("it stays the same");
    q1.intended.add_variant("total energy remains constant");
    q1.intended.require_concept("conserved");
    q1.intended.require_concept("energy");
    q1.concept_tested = owned("conservation");
    q1.set_explanation("The First Law of Thermodynamics: energy is conserved in a closed system.");
    q1.add_hint("Think about what happens to the total amount of energy.");
    proof {
        assert(views(q1.intended.acceptable_variants@) =~= lowercase_all(seq!["energy is conserved"@, "it stays the same"@, "total energy remains constant"@]));
        assert(views(q1.intended.concepts_required@) =~= lowercase_all(seq!["conserved"@, "energy"@]));
        assert(views(q1.intended.concepts_forbidden@) =~= lowercase_all(seq![]));
        assert(views(q1.hints@) =~= seq!["Think about what happens to the total amount of energy."@]);
    }
    lesson.add_question(q1);

    proof {
        reveal_strlit("When a ball rolls uphill, what happens to its kinetic energy?");
        lemma_ascii_head_cuts_cleanly("When a ball rolls uphill, what happens to its kinetic energy?"@, 8);
    }
    let mut q2 = TutorQuestion::new(
        "When a ball rolls uphill, what happens to its kinetic energy?",
        "Kinetic energy decreases and potential energy increases",
        f1,
        difficulty[1],
    );
    q2.intended.add_variant("kinetic energy goes down potential goes up");
    q2.intended.add_variant("it slows down and gains height");
    q2.intended.require_concept("kinetic");
    q2.intended.require_concept("decreases");
    q2.intended.forbid_concept("destroyed");
    q2.intended.add_partial_credit(PartialRule::new("kinetic", "destroyed", partial_credit, Placement::Within));
    q2.concept_tested = owned("kinetic-potential");
    q2.set_explanation("Kinetic energy converts to potential energy as the ball gains height.");
    proof {
        assert(views(q2.intended.acceptable_variants@) =~= lowercase_all(seq!["kinetic energy goes down potential goes up"@, "it slows down and gains height"@]));
        assert(views(q2.intended.concepts_required@) =~= lowercase_all(seq!["kinetic"@, "decreases"@]));
        assert(views(q2.intended.concepts_forbidden@) =~= lowercase_all(seq!["destroyed"@]));
        assert(views(q2.hints@) =~= seq![]);
    }
    lesson.add_question(q2);

    proof {
        reveal_strlit("What is the unit of energy?");
        lemma_ascii_head_cuts_cleanly("What is the unit of energy?"@, 8);
    }
    let mut q3 = TutorQuestion::new(
        "What is the unit of energy?",
        "Joule",
        f2,
        difficulty[2],
    );
    q3.intended.add_variant("joules");
    q3.intended.add_variant("j");
    q3.intended.add_variant("the joule");
    q3.concept_tested = owned("units");
    q3.set_explanation("The SI unit of energy is the Joule (J), named after James Prescott Joule.");
    proof {
        assert(views(q3.intended.acceptable_variants@) =~= lowercase_all(seq!["joules"@, "j"@, "the joule"@]));
        assert(views(q3.intended.concepts_required@) =~= lowercase_all(seq![]));
        assert(views(q3.intended.concepts_forbidden@) =~= lowercase_all(seq![]));
        assert(views(q3.hints@) =~= seq![]);
    }
    lesson.add_question(q3);

    proof {
        reveal_strlit("Can energy be destroyed?");
        lemma_ascii_head_cuts_cleanly("Can energy be destroyed?"@, 8);
    }
    let mut q4 = TutorQuestion::new(
        "Can energy be destroyed?",
        "No, energy cannot be destroyed only transformed",
        f3,
        difficulty[3],
    );
    q4.intended.add_variant("no");
    q4.intended.add_variant("no it is conserved");
    q4.intended.require_concept("no");
    q4.intended.forbid_concept("yes");
    q4.intended.forbid_concept("destroyed");
    q4.concept_tested = owned("conservation-law");
    q4.set_explanation("Energy conservation means energy is never destroyed, only converted between forms.");
    proof {
        assert(views(q4.intended.acceptable_variants@) =~= lowercase_all(seq!["no"@, "no it is conserved"@]));
        assert(views(q4.intended.concepts_required@) =~= lowercase_all(seq!["no"@]));
        assert(views(q4.intended.concepts_forbidden@) =~= lowercase_all(seq!["yes"@, "destroyed"@]));
        assert(views(q4.hints@) =~= seq![]);
    }
    lesson.add_question(q4);

    proof {
        reveal_strlit("What type of energy does a stretched rubber band have?");
        lemma_ascii_head_cuts_cleanly("What type of energy does a stretched rubber band have?"@, 8);
    }
    let mut q5 = TutorQuestion::new(
        "What type of energy does a stretched rubber band have?",
        "Elastic potential energy",
        f4,
        difficulty[4],
    );
    q5.intended.add_variant("potential energy");
    q5.intended.add_variant("elastic energy");
    q5.intended.add_variant("stored energy");
    q5.intended.require_concept("potential");
    q5.concept_tested = owned("potential-energy");
    q5.set_explanation("A stretched rubber band stores elastic potential energy.");
    proof {
        assert(views(q5.intended.acceptable_variants@) =~= lowercase_all(seq!["potential energy"@, "elastic energy"@, "stored energy"@]));
        assert(views(q5.intended.concepts_required@) =~= lowercase_all(seq!["potential"@]));
        assert(views(q5.intended.concepts_forbidden@) =~= lowercase_all(seq![]));
        assert(views(q5.hints@) =~= seq![]);
    }
    lesson.add_question(q5);
    lesson
}

/// Five questions about symmetry detection, with the given difficulties and a pass threshold of
/// `threshold`.
pub fn symmetry_lesson<S: Copy>(
    threshold: S,
    difficulty: [S; 5],
    answer_features: (Vec<S>, Vec<S>, Vec<S>, Vec<S>, Vec<S>),
) -> (l: TutorLesson<S>)
    ensures
        l.id@ == lesson_id("Symmetry Detection"@),
        l.title@ == "Symmetry Detection"@,
        l.topic@ == "mathematics"@,
        l.current_index == 0,
        l.scores@.len() == 0,
        l.threshold == threshold,
        l.consistent(),
        l.questions@.len() == 5,
        question_shape(
            l.questions@[0],
            "How many lines of symmetry does a square have?"@,
            "Four"@,
            answer_features.0@,
            seq!["4"@, "four lines"@],
            seq![],
            seq![],
            seq![],
            "reflection-symmetry"@,
            difficulty[0],
            "A square has 4 lines of symmetry: horizontal, vertical, and two diagonals."@,
            seq![],
        ),
        question_shape(
            l.questions@[1],
            "What type of symmetry does a circle have?"@,
            "Rotational symmetry and infinite lines of symmetry"@,
            answer_features.1@,
            seq!["infinite"@, "rotational"@, "all lines of symmetry"@],
            seq!["symmetry"@],
            seq![],
            seq![],
            "rotational-symmetry"@,
            difficulty[1],
            "A circle has rotational symmetry and infinitely many lines of symmetry."@,
            seq![],
        ),
        question_shape(
            l.questions@[2],
            "Does the letter A have a line of symmetry?"@,
            "Yes, vertical"@,
            answer_features.2@,
            seq!["yes"@, "vertical line"@],
            seq!["yes"@],
            seq![],
            seq![],
            "letter-symmetry"@,
            difficulty[2],
            "The letter A has a vertical line of symmetry down the middle."@,
            seq![],
        ),
        question_shape(
            l.questions@[3],
            "What is rotational symmetry?"@,
            "When a shape can be rotated and still look the same"@,
            answer_features.3@,
            seq!["looks the same after rotation"@, "same when rotated"@],
            seq!["rotated"@, "same"@],
            seq![],
            seq![],
            "rotational-definition"@,
            difficulty[3],
            "Rotational symmetry means a shape looks the same after some rotation."@,
            seq![],
        ),
        question_shape(
            l.questions@[4],
            "How many lines of symmetry does an equilateral triangle have?"@,
            "Three"@,
            answer_features.4@,
            seq!["3"@, "three lines"@],
            seq![],
            seq![],
            seq![],
            "triangle-symmetry"@,
            difficulty[4],
            "An equilateral triangle has 3 lines of symmetry, one through each vertex."@,
            seq![],
        ),
{
    let (f0, f1, f2, f3, f4) = answer_features;
    let mut lesson = TutorLesson::new("Symmetry Detection", "mathematics", threshold);

    proof {
        reveal_strlit("How many lines of symmetry does a square have?");
        lemma_ascii_head_cuts_cleanly("How many lines of symmetry does a square have?"@, 8);
    }
    let mut q1 = TutorQuestion::new(
        "How many lines of symmetry does a square have?",
        "Four",
        f0,
        difficulty[0],
    );
    q1.intended.add_variant("4");
    q1.intended.add_variant("four lines");
    q1.concept_tested = owned("reflection-symmetry");
    q1.set_explanation("A square has 4 lines of symmetry: horizontal, vertical, and two diagonals.");
    proof {
        assert(views(q1.intended.acceptable_variants@) =~= lowercase_all(seq!["4"@, "four lines"@]));
        assert(views(q1.intended.concepts_required@) =~= lowercase_all(seq![]));
        assert(views(q1.intended.concepts_forbidden@) =~= lowercase_all(seq![]));
        assert(views(q1.hints@) =~= seq![]);
    }
    lesson.add_question(q1);

    proof {
        reveal_strlit("What type of symmetry does a circle have?");
        lemma_ascii_head_cuts_cleanly("What type of symmetry does a circle have?"@, 8);
    }
    let mut q2 = TutorQuestion::new(
        "What type of symmetry does a circle have?",
        "Rotational symmetry and infinite lines of symmetry",
        f1,
        difficulty[1],
    );
    q2.intended.add_variant("infinite");
    q2.intended.add_variant("rotational");
    q2.intended.add_variant("all lines of symmetry");
    q2.intended.require_concept("symmetry");
    q2.concept_tested = owned("rotational-symmetry");
    q2.set_explanation("A circle has rotational symmetry and infinitely many lines of symmetry.");
    proof {
        assert(views(q2.intended.acceptable_variants@) =~= lowercase_all(seq!["infinite"@, "rotational"@, "all lines of symmetry"@]));
        assert(views(q2.intended.concepts_required@) =~= lowercase_all(seq!["symmetry"@]));
        assert(views(q2.intended.concepts_forbidden@) =~= lowercase_all(seq![]));
        assert(views(q2.hints@) =~= seq![]);
    }
    lesson.add_question(q2);

    proof {
        reveal_strlit("Does the letter A have a line of symmetry?");
        lemma_ascii_head_cuts_cleanly("Does the letter A have a line of symmetry?"@, 8);
    }
    let mut q3 = TutorQuestion::new(
        "Does the letter A have a line of symmetry?",
        "Yes, vertical",
        f2,
        difficulty[2],
    );
    q3.intended.add_variant("yes");
    q3.intended.add_variant("vertical line");
    q3.intended.require_concept("yes");
    q3.concept_tested = owned("letter-symmetry");
    q3.set_explanation("The letter A has a vertical line of symmetry down the middle.");
    proof {
        assert(views(q3.intended.acceptable_variants@) =~= lowercase_all(seq!["yes"@, "vertical line"@]));
        assert(views(q3.intended.concepts_required@) =~= lowercase_all(seq!["yes"@]));
        assert(views(q3.intended.concepts_forbidden@) =~= lowercase_all(seq![]));
        assert(views(q3.hints@) =~= seq![]);
    }
    lesson.add_question(q3);

    proof {
        reveal_strlit("What is rotational symmetry?");
        lemma_ascii_head_cuts_cleanly("What is rotational symmetry?"@, 8);
    }
    let mut q4 = TutorQuestion::new(
        "What is rotational symmetry?",
        "When a shape can be rotated and still look the same",
        f3,
        difficulty[3],
    );
    q4.intended.add_variant("looks the same after rotation");
    q4.intended.add_variant("same when rotated");
    q4.intended.require_concept("rotated");
    q4.intended.require_concept("same");
    q4.concept_tested = owned("rotational-definition");
    q4.set_explanation("Rotational symmetry means a shape looks the same after some rotation.");
    proof {
        assert(views(q4.intended.acceptable_variants@) =~= lowercase_all(seq!["looks the same after rotation"@, "same when rotated"@]));
        assert(views(q4.intended.concepts_required@) =~= lowercase_all(seq!["rotated"@, "same"@]));
        assert(views(q4.intended.concepts_forbidden@) =~= lowercase_all(seq![]));
        assert(views(q4.hints@) =~= seq![]);
    }
    lesson.add_question(q4);

    proof {
        reveal_strlit("How many lines of symmetry does an equilateral triangle have?");
        lemma_ascii_head_cuts_cleanly("How many lines of symmetry does an equilateral triangle have?"@, 8);
    }
    let mut q5 = TutorQuestion::new(
        "How many lines of symmetry does an equilateral triangle have?",
        "Three",
        f4,
        difficulty[4],
    );
    q5.intended.add_variant("3");
    q5.intended.add_variant("three lines");
    q5.concept_tested = owned("triangle-symmetry");
    q5.set_explanation("An equilateral triangle has 3 lines of symmetry, one through each vertex.");
    proof {
        assert(views(q5.intended.acceptable_variants@) =~= lowercase_all(seq!["3"@, "three lines"@]));
        assert(views(q5.intended.concepts_required@) =~= lowercase_all(seq![]));
        assert(views(q5.intended.concepts_forbidden@) =~= lowercase_all(seq![]));
        assert(views(q5.hints@) =~= seq![]);
    }
    lesson.add_question(q5);
    lesson
}

/// A tradition's name can open a question prompt: the question identifiers
/// keep the prompt's first eight bytes, which for prompts such as
/// "Why is {name} important?" end inside the name's first character unless
/// that character takes a single byte.
pub open spec fn tradition_name_fits(name: Seq<char>) -> bool {
    name.len() == 0 || (name[0] as u32) < 0x80
}

/// `a`, then `b`, then `c`.
fn concat3(a: &str, b: &str, c: &str) -> (s: String)
    ensures
        s@ == a@ + b@ + c@,
{
    let ab = concatenated(a, b);
    concatenated(ab.as_str(), c)
}

/// Five questions about the cultural tradition `tradition`, with the given
/// difficulties and a pass threshold of `threshold`.
pub fn tradition_lesson<S: Copy>(
    tradition: &str,
    threshold: S,
    difficulty: [S; 5],
    answer_features: (Vec<S>, Vec<S>, Vec<S>, Vec<S>, Vec<S>),
) -> (l: TutorLesson<S>)
    requires
        tradition_name_fits(tradition@),
    ensures
        l.id@ == lesson_id(tradition@ + " Tradition"@),
        l.title@ == tradition@ + " Tradition"@,
        l.topic@ == "cultural-studies"@,
        l.current_index == 0,
        l.scores@.len() == 0,
        l.threshold == threshold,
        l.consistent(),
        l.questions@.len() == 5,
        question_shape(
            l.questions@[0],
            "What is "@ + tradition@ + " known for?"@,
            tradition@ + " is a cultural tradition"@,
            answer_features.0@,
            seq![tradition@],
            seq![lowercase(tradition@)],
            seq![],
            seq![],
            "overview"@,
            difficulty[0],
            seq![],
            seq![],
        ),
        question_shape(
            l.questions@[1],
            "Why is "@ + tradition@ + " important?"@,
            "It preserves cultural heritage and identity"@,
            answer_features.1@,
            seq!["cultural heritage"@, "identity"@, "preserves tradition"@],
            seq![],
            seq![],
            seq![],
            "significance"@,
            difficulty[1],
            seq![],
            seq![],
        ),
        question_shape(
            l.questions@[2],
            "How is "@ + tradition@ + " typically celebrated?"@,
            "Through ceremonies, rituals, and community gatherings"@,
            answer_features.2@,
            seq!["ceremonies"@, "rituals"@, "community"@],
            seq!["community"@],
            seq![],
            seq![],
            "practice"@,
            difficulty[2],
            seq![],
            seq![],
        ),
        question_shape(
            l.questions@[3],
            "What values do traditions transmit?"@,
            "Values, beliefs, history, and social norms"@,
            answer_features.3@,
            seq!["values and beliefs"@, "history"@],
            seq!["values"@],
            seq![],
            seq![],
            "transmission"@,
            difficulty[3],
            seq![],
            seq![],
        ),
        question_shape(
            l.questions@[4],
            "What happens if "@ + tradition@ + " is lost?"@,
            "Cultural diversity and heritage are diminished"@,
            answer_features.4@,
            seq!["diversity is lost"@, "heritage is lost"@, "culture is diminished"@],
            seq![],
            seq![],
            seq![],
            "preservation"@,
            difficulty[4],
            seq![],
            seq![],
        ),
{
    let (f0, f1, f2, f3, f4) = answer_features;
    let title = concatenated(tradition, " Tradition");
    let mut lesson = TutorLesson::new(title.as_str(), "cultural-studies", threshold);

    let p1 = concat3("What is ", tradition, " known for?");
    let a1 = concatenated(tradition, " is a cultural tradition");
    proof {
        reveal_strlit("What is ");
        lemma_ascii_head_cuts_cleanly(p1@, 8);
    }
    let mut q1 = TutorQuestion::new(p1.as_str(), a1.as_str(), f0, difficulty[0]);
    q1.intended.add_variant(tradition);
    let lowered = to_lowercase(tradition);
    q1.intended.require_concept(lowered.as_str());
    q1.concept_tested = owned("overview");
    proof {
        assert(views(q1.intended.acceptable_variants@) =~= lowercase_all(seq![tradition@]));
        assert(views(q1.intended.concepts_required@) =~= lowercase_all(
            seq![lowercase(tradition@)],
        ));
        assert(views(q1.intended.concepts_forbidden@) =~= lowercase_all(seq![]));
        assert(views(q1.hints@) =~= seq![]);
        assert(q1.explanation@ =~= seq![]);
    }
    lesson.add_question(q1);

    let p2 = concat3("Why is ", tradition, " important?");
    proof {
        reveal_strlit("Why is ");
        reveal_strlit(" important?");
        lemma_ascii_head_cuts_cleanly(p2@, 8);
    }
    let mut q2 = TutorQuestion::new(
        p2.as_str(),
        "It preserves cultural heritage and identity",
        f1,
        difficulty[1],
    );
    q2.intended.add_variant("cultural heritage");
    q2.intended.add_variant("identity");
    q2.intended.add_variant("preserves tradition");
    q2.concept_tested = owned("significance");
    proof {
        assert(views(q2.intended.acceptable_variants@) =~= lowercase_all(
            seq!["cultural heritage"@, "identity"@, "preserves tradition"@],
        ));
        assert(views(q2.intended.concepts_required@) =~= lowercase_all(seq![]));
        assert(views(q2.intended.concepts_forbidden@) =~= lowercase_all(seq![]));
        assert(views(q2.hints@) =~= seq![]);
        assert(q2.explanation@ =~= seq![]);
    }
    lesson.add_question(q2);

    let p3 = concat3("How is ", tradition, " typically celebrated?");
    proof {
        reveal_strlit("How is ");
        reveal_strlit(" typically celebrated?");
        lemma_ascii_head_cuts_cleanly(p3@, 8);
    }
    let mut q3 = TutorQuestion::new(
        p3.as_str(),
        "Through ceremonies, rituals, and community gatherings",
        f2,
        difficulty[2],
    );
    q3.intended.add_variant("ceremonies");
    q3.intended.add_variant("rituals");
    q3.intended.add_variant("community");
    q3.intended.require_concept("community");
    q3.concept_tested = owned("practice");
    proof {
        assert(views(q3.intended.acceptable_variants@) =~= lowercase_all(
            seq!["ceremonies"@, "rituals"@, "community"@],
        ));
        assert(views(q3.intended.concepts_required@) =~= lowercase_all(seq!["community"@]));
        assert(views(q3.intended.concepts_forbidden@) =~= lowercase_all(seq![]));
        assert(views(q3.hints@) =~= seq![]);
        assert(q3.explanation@ =~= seq![]);
    }
    lesson.add_question(q3);

    proof {
        reveal_strlit("What values do traditions transmit?");
        lemma_ascii_head_cuts_cleanly("What values do traditions transmit?"@, 8);
    }
    let mut q4 = TutorQuestion::new(
        "What values do traditions transmit?",
        "Values, beliefs, history, and social norms",
        f3,
        difficulty[3],
    );
    q4.intended.add_variant("values and beliefs");
    q4.intended.add_variant("history");
    q4.intended.require_concept("values");
    q4.concept_tested = owned("transmission");
    proof {
        assert(views(q4.intended.acceptable_variants@) =~= lowercase_all(
            seq!["values and beliefs"@, "history"@],
        ));
        assert(views(q4.intended.concepts_required@) =~= lowercase_all(seq!["values"@]));
        assert(views(q4.intended.concepts_forbidden@) =~= lowercase_all(seq![]));
        assert(views(q4.hints@) =~= seq![]);
        assert(q4.explanation@ =~= seq![]);
    }
    lesson.add_question(q4);

    let p5 = concat3("What happens if ", tradition, " is lost?");
    proof {
        reveal_strlit("What happens if ");
        lemma_ascii_head_cuts_cleanly(p5@, 8);
    }
    let mut q5 = TutorQuestion::new(
        p5.as_str(),
        "Cultural diversity and heritage are diminished",
        f4,
        difficulty[4],
    );
    q5.intended.add_variant("diversity is lost");
    q5.intended.add_variant("heritage is lost");
    q5.intended.add_variant("culture is diminished");
    q5.concept_tested = owned("preservation");
    proof {
        assert(views(q5.intended.acceptable_variants@) =~= lowercase_all(
            seq!["diversity is lost"@, "heritage is lost"@, "culture is diminished"@],
        ));
        assert(views(q5.intended.concepts_required@) =~= lowercase_all(seq![]));
        assert(views(q5.intended.concepts_forbidden@) =~= lowercase_all(seq![]));
        assert(views(q5.hints@) =~= seq![]);
        assert(q5.explanation@ =~= seq![]);
    }
    lesson.add_question(q5);
    lesson
}

/// The intended answers of the energy-conservation lesson, in question order: the
/// texts whose positions in the meaning space `conservation_lesson` takes.
pub fn conservation_answers() -> (a: [&'static str; 5])
    ensures
        a[0]@ == "Energy is conserved, it cannot be created or destroyed"@,
        a[1]@ == "Kinetic energy decreases and potential energy increases"@,
        a[2]@ == "Joule"@,
        a[3]@ == "No, energy cannot be destroyed only transformed"@,
        a[4]@ == "Elastic potential energy"@,
{
    [
        "Energy is conserved, it cannot be created or destroyed",
        "Kinetic energy decreases and potential energy increases",
        "Joule",
        "No, energy cannot be destroyed only transformed",
        "Elastic potential energy",
    ]
}

/// The intended answers of the symmetry-detection lesson, in question order: the
/// texts whose positions in the meaning space `symmetry_lesson` takes.
pub fn symmetry_answers() -> (a: [&'static str; 5])
    ensures
        a[0]@ == "Four"@,
        a[1]@ == "Rotational symmetry and infinite lines of symmetry"@,
        a[2]@ == "Yes, vertical"@,
        a[3]@ == "When a shape can be rotated and still look the same"@,
        a[4]@ == "Three"@,
{
    [
        "Four",
        "Rotational symmetry and infinite lines of symmetry",
        "Yes, vertical",
        "When a shape can be rotated and still look the same",
        "Three",
    ]
}

/// The intended answers of the lesson on `tradition`, in question order:
/// the texts whose positions in the meaning space `tradition_lesson` takes.
pub fn tradition_answers(tradition: &str) -> (a: Vec<String>)
    ensures
        a@.len() == 5,
        a@[0]@ == tradition@ + " is a cultural tradition"@,
        a@[1]@ == "It preserves cultural heritage and identity"@,
        a@[2]@ == "Through ceremonies, rituals, and community gatherings"@,
        a@[3]@ == "Values, beliefs, history, and social norms"@,
        a@[4]@ == "Cultural diversity and heritage are diminished"@,
{
    let mut a: Vec<String> = Vec::new();
    a.push(concatenated(tradition, " is a cultural tradition"));
    a.push(owned("It preserves cultural heritage and identity"));
    a.push(owned("Through ceremonies, rituals, and community gatherings"));
    a.push(owned("Values, beliefs, history, and social norms"));
    a.push(owned("Cultural diversity and heritage are diminished"));
    a
}

} // verus!
