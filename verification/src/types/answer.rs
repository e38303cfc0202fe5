//! Answers, as the store keeps them.
use crate::types::question::QuestionId;
use vstd::prelude::*;

verus! {

/// The key of an answer, given out by the store.
#[derive(Debug, Clone, Copy, PartialEq, Eq, Hash, Structural)]
pub struct AnswerId(pub i32);

/// An answer as the store keeps it.
#[derive(Debug, Clone)]
pub struct Answer {
    pub id: AnswerId,
    pub content: String,
    pub question_id: QuestionId,
}

/// An answer that has no key yet.
#[derive(Debug, Clone)]
pub struct NewAnswer {
    pub content: String,
    pub question_id: QuestionId,
}

} // verus!
