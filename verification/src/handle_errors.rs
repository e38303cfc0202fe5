//! The kinds of failure a request can end in, and the one place where each
//! becomes an HTTP status and a short message.
use vstd::prelude::*;
use vstd::string::StringExecFns;

verus! {

/// Why a piece of text could not be read as a decimal integer.
#[derive(Debug, Clone, Copy, PartialEq, Eq, Structural)]
pub enum IntErrorKind {
    /// The text was empty.
    Empty,
    /// A byte that is no decimal digit stood where a digit was needed, or a
    /// `+` stood alone.
    InvalidDigit,
    /// The number is above the largest value of the target type.
    PosOverflow,
}

impl IntErrorKind {
    /// The text that describes this kind of failure.
    pub open spec fn text(self) -> Seq<char> {
        match self {
            IntErrorKind::Empty => "cannot parse integer from empty string"@,
            IntErrorKind::InvalidDigit => "invalid digit found in string"@,
            IntErrorKind::PosOverflow => "number too large to fit in target type"@,
        }
    }

    /// Returns the description of this kind of failure.
    pub fn description(&self) -> (s: &'static str)
        ensures
            s@ == self.text(),
    {
        match self {
            IntErrorKind::Empty => "cannot parse integer from empty string",
            IntErrorKind::InvalidDigit => "invalid digit found in string",
            IntErrorKind::PosOverflow => "number too large to fit in target type",
        }
    }
}

/// A failure raised while a request is handled.
#[derive(Debug, Clone, Copy, PartialEq, Eq, Structural)]
pub enum Error {
    /// A query parameter was present but is no number of the expected type.
    ParseError(IntErrorKind),
    /// A required query parameter is absent.
    MissingParameters,
    /// The request carries no token, or one that is malformed, forged,
    /// not yet valid or expired; or the credentials do not match.
    Unauthorized,
    /// A stored password hash cannot be read, or hashing failed.
    HashingError,
    /// An operation on the store failed.
    DatabaseQueryError,
    /// The moderation service could not be reached or reported a failure.
    ModerationServiceError,
}

impl Error {
    /// The HTTP status that reports this failure.
    pub open spec fn spec_status(self) -> u16 {
        match self {
            Error::ParseError(_) => 400,
            Error::MissingParameters => 400,
            Error::Unauthorized => 401,
            Error::HashingError => 500,
            Error::DatabaseQueryError => 500,
            Error::ModerationServiceError => 500,
        }
    }

    /// The message that reports this failure. It never holds detail of the
    /// underlying cause beyond the reason a number was refused.
    pub open spec fn spec_message(self) -> Seq<char> {
        match self {
            Error::ParseError(kind) => "Cannot parse parameter: "@ + kind.text(),
            Error::MissingParameters => "Missing parameter"@,
            Error::Unauthorized => "No permission to change the underlying resource"@,
            Error::HashingError => "Cannot verify password"@,
            Error::DatabaseQueryError => "Cannot update, invalid data"@,
            Error::ModerationServiceError => "External API error"@,
        }
    }

    /// Returns the HTTP status that reports this failure.
    #[verifier::when_used_as_spec(spec_status)]
    pub fn status(self) -> (code: u16)
        ensures
            code == self.spec_status(),
    {
        match self {
            Error::ParseError(_) => 400,
            Error::MissingParameters => 400,
            Error::Unauthorized => 401,
            Error::HashingError => 500,
            Error::DatabaseQueryError => 500,
            Error::ModerationServiceError => 500,
        }
    }

    /// Returns the message that reports this failure.
    pub fn message(&self) -> (text: String)
        ensures
            text@ == self.spec_message(),
    {
        match self {
            Error::ParseError(kind) => {
                String::from_str("Cannot parse parameter: ").concat(kind.description())
            },
            Error::MissingParameters => String::from_str("Missing parameter"),
            Error::Unauthorized => String::from_str(
                "No permission to change the underlying resource",
            ),
            Error::HashingError => String::from_str("Cannot verify password"),
            Error::DatabaseQueryError => String::from_str("Cannot update, invalid data"),
            Error::ModerationServiceError => String::from_str("External API error"),
        }
    }
}

/// One cause of a rejection.
#[derive(Debug, Clone, Copy, PartialEq, Eq, Structural)]
pub enum Cause {
    /// The framework refused a cross-origin request.
    CorsForbidden,
    /// A handler or a filter of this service raised a failure.
    Application(Error),
    /// No route matched the request.
    NotFound,
    /// Anything else that the framework raises.
    Unrecognized,
}

/// Why a request did not reach a normal response: every cause that was
/// raised on its way, in the order in which they were raised.
#[derive(Debug)]
pub struct Rejection {
    pub causes: Vec<Cause>,
}

/// A status and a message, ready to be sent.
#[derive(Debug)]
pub struct Reply {
    pub status: u16,
    pub body: String,
}

/// The first failure of the application among `causes`.
pub open spec fn first_error(causes: Seq<Cause>) -> Option<Error>
    decreases causes.len(),
{
    if causes.len() == 0 {
        None
    } else {
        match causes[0] {
            Cause::Application(error) => Some(error),
            _ => first_error(causes.skip(1)),
        }
    }
}

/// The status that answers a rejection. A refused cross-origin request comes
/// first, then the first failure of the application; whatever else was
/// raised, and nothing at all, is answered like a route that does not exist.
pub open spec fn rejection_status(causes: Seq<Cause>) -> u16 {
    if causes.contains(Cause::CorsForbidden) {
        403
    } else {
        match first_error(causes) {
            Some(error) => error.spec_status(),
            None => 404,
        }
    }
}

/// The message that answers a rejection, chosen as the status is.
pub open spec fn rejection_body(causes: Seq<Cause>) -> Seq<char> {
    if causes.contains(Cause::CorsForbidden) {
        "CORS request forbidden"@
    } else {
        match first_error(causes) {
            Some(error) => error.spec_message(),
            None => "Route not found"@,
        }
    }
}

/// A rejection that holds neither a refused cross-origin request nor a
/// failure of the application is answered with 404 and `Route not found`,
/// whether it holds an unmatched route, causes that are not recognized, or
/// nothing.
pub proof fn lemma_unrecognized_is_not_found(causes: Seq<Cause>)
    requires
        forall|i: int|
            0 <= i < causes.len() ==> #[trigger] causes[i] is NotFound || causes[i] is Unrecognized,
    ensures
        rejection_status(causes) == 404,
        rejection_body(causes) == "Route not found"@,
    decreases causes.len(),
{
    if causes.len() > 0 {
        let rest = causes.skip(1);
        assert forall|i: int| 0 <= i < rest.len() implies #[trigger] rest[i] is NotFound
            || rest[i] is Unrecognized by {
            assert(rest[i] == causes[i + 1]);
        }
        lemma_unrecognized_is_not_found(rest);
        assert(!rest.contains(Cause::CorsForbidden) ==> !causes.contains(Cause::CorsForbidden)) by {
            if causes.contains(Cause::CorsForbidden) {
                let i = choose|i: int| 0 <= i < causes.len() && causes[i] == Cause::CorsForbidden;
                assert(causes[0] != Cause::CorsForbidden);
                assert(rest[i - 1] == Cause::CorsForbidden);
            }
        }
        if rest.contains(Cause::CorsForbidden) {
            let i = choose|i: int| 0 <= i < rest.len() && rest[i] == Cause::CorsForbidden;
            assert(rest[i] is NotFound || rest[i] is Unrecognized);
        }
    } else {
        assert(!causes.contains(Cause::CorsForbidden));
    }
}

/// Every status that answers a rejection is one of 400, 401, 403, 404 and
/// 500.
pub proof fn lemma_rejection_statuses(causes: Seq<Cause>)
    ensures
        rejection_status(causes) == 400 || rejection_status(causes) == 401 || rejection_status(
            causes,
        ) == 403 || rejection_status(causes) == 404 || rejection_status(causes) == 500,
{
}

/// Turns a rejection into the status and the message that answer it.
pub fn return_error(rejection: &Rejection) -> (reply: Reply)
    ensures
        reply.status == rejection_status(rejection.causes@),
        reply.body@ == rejection_body(rejection.causes@),
{
    let ghost causes = rejection.causes@;
    let mut found: Option<Error> = None;
    let mut i: usize = 0;
    proof {
        assert(causes.skip(0) =~= causes);
    }
    while i < rejection.causes.len()
        invariant
            i <= rejection.causes.len(),
            causes == rejection.causes@,
            forall|k: int| 0 <= k < i ==> causes[k] != Cause::CorsForbidden,
            match found {
                Some(error) => first_error(causes) == Some(error),
                None => first_error(causes) == first_error(causes.skip(i as int)),
            },
        decreases rejection.causes.len() - i,
    {
        let ghost rest = causes.skip(i as int);
        proof {
            assert(rest[0] == causes[i as int]);
            assert(rest.skip(1) =~= causes.skip(i + 1));
        }
        match rejection.causes[i] {
            Cause::CorsForbidden => {
                return Reply { status: 403, body: String::from_str("CORS request forbidden") };
            },
            Cause::Application(error) => {
                if found.is_none() {
                    found = Some(error);
                }
            },
            Cause::NotFound => {},
            Cause::Unrecognized => {},
        }
        i = i + 1;
    }
    proof {
        assert(!causes.contains(Cause::CorsForbidden));
    }
    match found {
        Some(error) => Reply { status: error.status(), body: error.message() },
        None => Reply { status: 404, body: String::from_str("Route not found") },
    }
}

} // verus!
