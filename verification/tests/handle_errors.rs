use rust_web_dev::handle_errors::{return_error, Cause, Error, IntErrorKind, Rejection};

fn answer(causes: Vec<Cause>) -> (u16, String) {
    let reply = return_error(&Rejection { causes });
    (reply.status, reply.body)
}

fn text(status: u16, body: &str) -> (u16, String) {
    (status, String::from(body))
}

#[test]
fn each_kind_of_error_has_its_status_and_message() {
    let cases: [(Error, u16, &str); 8] = [
        (Error::MissingParameters, 400, "Missing parameter"),
        (
            Error::ParseError(IntErrorKind::InvalidDigit),
            400,
            "Cannot parse parameter: invalid digit found in string",
        ),
        (
            Error::ParseError(IntErrorKind::Empty),
            400,
            "Cannot parse parameter: cannot parse integer from empty string",
        ),
        (
            Error::ParseError(IntErrorKind::PosOverflow),
            400,
            "Cannot parse parameter: number too large to fit in target type",
        ),
        (
            Error::Unauthorized,
            401,
            "No permission to change the underlying resource",
        ),
        (Error::HashingError, 500, "Cannot verify password"),
        (Error::DatabaseQueryError, 500, "Cannot update, invalid data"),
        (Error::ModerationServiceError, 500, "External API error"),
    ];
    for (error, status, message) in cases.iter() {
        assert_eq!(error.status(), *status);
        assert_eq!(error.message(), *message);
        assert_eq!(
            answer(vec![Cause::Application(*error)]),
            text(*status, message)
        );
    }
}

#[test]
fn refused_cross_origin_request_is_forbidden() {
    assert_eq!(
        answer(vec![Cause::CorsForbidden]),
        text(403, "CORS request forbidden")
    );
}

#[test]
fn unmatched_route_and_unrecognized_rejection_get_the_same_answer() {
    let not_found = answer(vec![Cause::NotFound]);
    let unrecognized = answer(vec![Cause::Unrecognized]);
    let nothing = answer(Vec::new());
    let several = answer(vec![Cause::Unrecognized, Cause::NotFound, Cause::Unrecognized]);
    assert_eq!(not_found, text(404, "Route not found"));
    assert_eq!(unrecognized, not_found);
    assert_eq!(nothing, not_found);
    assert_eq!(several, not_found);
}

#[test]
fn refused_cross_origin_request_comes_before_everything_else() {
    assert_eq!(
        answer(vec![
            Cause::NotFound,
            Cause::Application(Error::Unauthorized),
            Cause::CorsForbidden,
            Cause::Application(Error::MissingParameters),
        ]),
        text(403, "CORS request forbidden")
    );
}

#[test]
fn first_failure_of_the_application_comes_before_what_is_not_recognized() {
    assert_eq!(
        answer(vec![
            Cause::Unrecognized,
            Cause::NotFound,
            Cause::Application(Error::DatabaseQueryError),
            Cause::Application(Error::Unauthorized),
        ]),
        text(500, "Cannot update, invalid data")
    );
    assert_eq!(
        answer(vec![
            Cause::Application(Error::Unauthorized),
            Cause::Application(Error::DatabaseQueryError),
            Cause::NotFound,
        ]),
        text(401, "No permission to change the underlying resource")
    );
}
