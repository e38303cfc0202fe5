use rust_web_dev::handle_errors::{Error, IntErrorKind};
use rust_web_dev::types::pagination::{extract_pagination, pagination_from, Pagination};
use std::collections::HashMap;

#[test]
fn valid_pagination() {
    let mut params = HashMap::new();
    params.insert(String::from("limit"), String::from("1"));
    params.insert(String::from("offset"), String::from("10"));

    let pagination_result = extract_pagination(params);

    let expected = Pagination {
        limit: Some(1),
        offset: 10,
    };

    assert_eq!(pagination_result.unwrap(), expected);
}

#[test]
fn missing_offset_parameter() {
    let mut params = HashMap::new();
    params.insert(String::from("limit"), String::from("1"));

    let pagination_result = extract_pagination(params).unwrap_err().message();

    let expected = Error::MissingParameters.message();

    println!("{}", pagination_result);
    println!("{}", expected);

    assert_eq!(pagination_result, expected)
}

#[test]
fn missing_limit_parameter() {
    let mut params = HashMap::new();
    params.insert(String::from("offset"), String::from("10"));

    let pagination_result = extract_pagination(params).unwrap_err().message();

    let expected = Error::MissingParameters.message();

    assert_eq!(pagination_result, expected);
}

#[test]
fn wrong_limit_parse() {
    let mut params = HashMap::new();
    params.insert(String::from("limit"), String::from("NOT_A_NUMBER"));
    params.insert(String::from("offset"), String::from("1"));

    let pagination_result = extract_pagination(params).unwrap_err().message();

    let expected = String::from("Cannot parse parameter: invalid digit found in string");

    assert_eq!(pagination_result, expected);
}

#[test]
fn wrong_offset_parse() {
    let mut params = HashMap::new();
    params.insert(String::from("limit"), String::from("10"));
    params.insert(String::from("offset"), String::from("NOT_A_NUMBER"));

    let pagination_result = extract_pagination(params).unwrap_err().message();

    let expected = String::from("Cannot parse parameter: invalid digit found in string");

    assert_eq!(pagination_result, expected);
}

#[test]
fn empty_query_is_missing_parameters() {
    let params: HashMap<String, String> = HashMap::new();
    assert_eq!(extract_pagination(params), Err(Error::MissingParameters));
}

#[test]
fn parameters_under_other_names_do_not_count() {
    let mut params = HashMap::new();
    params.insert(String::from("Limit"), String::from("1"));
    params.insert(String::from("offset "), String::from("10"));
    params.insert(String::from("offset"), String::from("10"));
    assert_eq!(extract_pagination(params), Err(Error::MissingParameters));
}

#[test]
fn lookup_returns_the_value_and_not_the_name() {
    let mut params = HashMap::new();
    params.insert(String::from("limit"), String::from("7"));
    params.insert(String::from("offset"), String::from("3"));
    assert_eq!(
        extract_pagination(params),
        Ok(Pagination {
            limit: Some(7),
            offset: 3
        })
    );
}

#[test]
fn failure_of_limit_is_reported_before_that_of_offset() {
    assert_eq!(
        pagination_from(Some(""), Some("x")),
        Err(Error::ParseError(IntErrorKind::Empty))
    );
    assert_eq!(
        pagination_from(Some("1"), Some("4294967296")),
        Err(Error::ParseError(IntErrorKind::PosOverflow))
    );
    assert_eq!(
        pagination_from(Some("-1"), Some("")),
        Err(Error::ParseError(IntErrorKind::InvalidDigit))
    );
}

#[test]
fn a_present_but_malformed_value_differs_from_an_absent_one() {
    assert_eq!(pagination_from(None, Some("x")), Err(Error::MissingParameters));
    assert_eq!(pagination_from(Some("x"), None), Err(Error::MissingParameters));
    assert_eq!(pagination_from(None, None), Err(Error::MissingParameters));
    assert_eq!(
        pagination_from(Some("x"), Some("1")),
        Err(Error::ParseError(IntErrorKind::InvalidDigit))
    );
}

#[test]
fn largest_values_are_accepted() {
    assert_eq!(
        pagination_from(Some("4294967295"), Some("+0000")),
        Ok(Pagination {
            limit: Some(4294967295),
            offset: 0
        })
    );
}

#[test]
fn default_pagination_has_no_limit_and_no_offset() {
    assert_eq!(
        Pagination::default(),
        Pagination {
            limit: None,
            offset: 0
        }
    );
}
