//! A tutoring library in the manner of the PLATO system: student responses
//! are judged against intended answers by concepts, accepted variants and
//! partial-credit rules, and lessons and rooms keep track of each student's
//! progress.
//!
//! Scores, difficulties and feature vectors are numbers of a type `S` chosen
//! by the caller; this crate stores and passes them on, and decides
//! everything that does not need arithmetic on them.

pub mod answer;
pub mod catalog;
pub mod evaluation;
pub mod features;
pub mod lesson;
pub mod question;
pub mod room;
pub mod space;
pub mod student;
pub mod text;

pub use answer::{IntendedAnswer, PartialRule};
pub use catalog::{conservation_lesson, symmetry_lesson, tradition_lesson};
pub use evaluation::{Grade, Placement, TutorEvaluation};
pub use lesson::TutorLesson;
pub use question::TutorQuestion;
pub use room::{Arrival, Progress, TutorRoom};
pub use space::{DistanceMetric, MeaningSpace};
pub use student::StudentRecord;
