//! Posting an answer: its text is screened, then stored.
use crate::handle_errors::{Error, Reply};
use crate::types::answer::NewAnswer;
use crate::types::question::QuestionId;
use vstd::prelude::*;
use vstd::string::StringExecFns;

verus! {

/// What has just happened to a posted answer.
pub enum AnswerEvent {
    /// The answer has arrived.
    Received(NewAnswer),
    /// The moderation service has screened the text of the answer to the
    /// question named, and returned the screened text or failed.
    Moderated(QuestionId, Result<String, Error>),
    /// The store has taken the answer, or failed.
    Stored(Result<(), Error>),
}

/// What is to be done next with a posted answer.
pub enum AnswerAction {
    /// Have the moderation service screen the content of this answer.
    Moderate(NewAnswer),
    /// Hand this answer to the store.
    AddAnswer(NewAnswer),
    /// Send this reply; the request is done.
    Reply(Reply),
    /// Reject the request with this failure; the request is done.
    Reject(Error),
}

/// Decides the next step for a posted answer.
///
/// An answer that arrives goes to moderation as it is. What moderation
/// returns is stored in place of the text that was sent, for the same
/// question; nothing is stored where moderation fails. A stored answer is
/// replied to with 200 and `Answer Added`. Every failure rejects the request
/// unchanged.
pub fn add_answer(event: AnswerEvent) -> (action: AnswerAction)
    ensures
        match event {
            AnswerEvent::Received(answer) => action matches AnswerAction::Moderate(same)
                && same.content@ == answer.content@ && same.question_id == answer.question_id,
            AnswerEvent::Moderated(question_id, Ok(content)) => action matches
                AnswerAction::AddAnswer(answer) && answer.content@ == content@
                && answer.question_id == question_id,
            AnswerEvent::Moderated(_, Err(error)) => action matches AnswerAction::Reject(same)
                && same == error,
            AnswerEvent::Stored(Ok(_)) => action matches AnswerAction::Reply(reply) && reply.status
                == 200 && reply.body@ == "Answer Added"@,
            AnswerEvent::Stored(Err(error)) => action matches AnswerAction::Reject(same) && same
                == error,
        },
{
    match event {
        AnswerEvent::Received(answer) => AnswerAction::Moderate(answer),
        AnswerEvent::Moderated(question_id, Ok(content)) => AnswerAction::AddAnswer(
            NewAnswer { content, question_id },
        ),
        AnswerEvent::Moderated(_, Err(error)) => AnswerAction::Reject(error),
        AnswerEvent::Stored(Ok(_)) => AnswerAction::Reply(
            Reply { status: 200, body: String::from_str("Answer Added") },
        ),
        AnswerEvent::Stored(Err(error)) => AnswerAction::Reject(error),
    }
}

} // verus!
