//! Screening puzzle engine: deterministic challenge generation from an
//! applicant identifier, a bounded edit-distance evaluator, answer-key
//! derivation, and the decisions of the registration and verification workflow.

pub mod answer_key;
pub mod challenge;
pub mod distance;
pub mod edits;
pub mod encoding;
pub mod errors;
pub mod generator;
pub mod messages;
pub mod text;
pub mod vocabulary;
pub mod workflow;
