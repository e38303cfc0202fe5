//! The routes of the service, which of them ask for a token, and what each
//! does with a request before and after the store is asked.
use crate::handle_errors::{rejection_status, Cause, Error};
use crate::routes::authentication::{auth, authorized};
use crate::text::chars_of;
use crate::token::TokenCodec;
use crate::types::account::AccountId;
use vstd::prelude::*;

pub mod answer;
pub mod authentication;

verus! {

/// A route of the service.
#[derive(Debug, Clone, Copy, PartialEq, Eq, Structural)]
pub enum Route {
    /// `POST /registration`
    Registration,
    /// `POST /login`
    Login,
    /// `GET /questions`
    GetQuestions,
    /// `POST /questions`
    AddQuestion,
    /// `PUT /questions/{id}`
    UpdateQuestion,
    /// `DELETE /questions/{id}`
    DeleteQuestion,
    /// `POST /answers`
    AddAnswer,
}

impl Route {
    /// Whether the route serves only requests that carry a valid token:
    /// every route that changes questions or answers does.
    pub open spec fn protected(self) -> bool {
        match self {
            Route::Registration => false,
            Route::Login => false,
            Route::GetQuestions => false,
            Route::AddQuestion => true,
            Route::UpdateQuestion => true,
            Route::DeleteQuestion => true,
            Route::AddAnswer => true,
        }
    }

    /// Returns whether the route serves only requests that carry a valid
    /// token.
    pub fn requires_auth(&self) -> (needed: bool)
        ensures
            needed == self.protected(),
    {
        match self {
            Route::Registration => false,
            Route::Login => false,
            Route::GetQuestions => false,
            Route::AddQuestion => true,
            Route::UpdateQuestion => true,
            Route::DeleteQuestion => true,
            Route::AddAnswer => true,
        }
    }
}

/// Whether a request may go on to the handler of `route`, and for which
/// account. An open route lets every request pass, with no account and
/// without a look at the header. A protected route passes what the guard
/// passes.
pub open spec fn gated(
    key: Seq<u8>,
    route: Route,
    authorization: Option<Seq<char>>,
    now: i64,
) -> Result<Option<AccountId>, Error> {
    if route.protected() {
        match authorized(key, authorization, now) {
            Ok(account_id) => Ok(Some(account_id)),
            Err(error) => Err(error),
        }
    } else {
        Ok(None)
    }
}

/// Decides, before the handler of `route` runs and before the store is
/// asked anything, whether a request may go on.
pub fn gate(codec: &TokenCodec, route: Route, authorization: Option<&str>, now: i64) -> (r: Result<
    Option<AccountId>,
    Error,
>)
    ensures
        r == gated(codec.secret(), route, chars_of(authorization), now),
{
    if route.requires_auth() {
        match auth(codec, authorization, now) {
            Ok(account_id) => Ok(Some(account_id)),
            Err(error) => Err(error),
        }
    } else {
        Ok(None)
    }
}

/// A request to a protected route that carries no `Authorization` header is
/// refused as `Unauthorized`, whatever the key and the moment, and that
/// failure is answered with the status 401.
pub proof fn lemma_protected_route_needs_header(key: Seq<u8>, route: Route, now: i64)
    requires
        route.protected(),
    ensures
        gated(key, route, None, now) == Err::<Option<AccountId>, Error>(Error::Unauthorized),
        rejection_status(seq![Cause::Application(Error::Unauthorized)]) == 401,
{
    let causes = seq![Cause::Application(Error::Unauthorized)];
    assert(causes[0] == Cause::Application(Error::Unauthorized));
    assert(!causes.contains(Cause::CorsForbidden)) by {
        if causes.contains(Cause::CorsForbidden) {
            let i = choose|i: int| 0 <= i < causes.len() && causes[i] == Cause::CorsForbidden;
            assert(causes[i] == causes[0]);
        }
    }
}

} // verus!
