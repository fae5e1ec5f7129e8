# lau-plato-tutor

A tutoring library in the manner of the PLATO system. A student's response
is judged against an intended answer: accepted variants, required and
forbidden concepts, and partial-credit rules; lessons step through their
questions, student records collect completed lessons, strengths and
weaknesses, and rooms track each student who beams in.

## Layout

- `src/` — the verified library (Verus). Scores, difficulties and feature
  vectors are values of a type parameter `S`; the library stores and passes
  them on and decides everything that needs no arithmetic on them.
  - `text.rs` — substring search, trimming, words, slugs, UTF-8 prefixes.
  - `features.rs` — the textual part of a response's embedding.
  - `answer.rs` — partial-credit rules and intended answers.
  - `evaluation.rs` — evaluations, scores brought into the unit interval,
    and student feedback.
  - `question.rs`, `lesson.rs`, `student.rs`, `room.rs` — questions,
    lessons, student records and rooms.
  - `catalog.rs` — ready-made lessons.
  - `space.rs` — the meaning space.
- `app/` — the numeric layer in `f64` (embeddings, distances, scores and
  their thresholds), the clock, and serde forms of the library's types.
- `tests/` — tests of the library.
