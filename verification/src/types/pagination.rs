//! The `limit` and `offset` parameters of a query.
use crate::handle_errors::Error;
use crate::number::{parse_u32, parse_u32_text};
use crate::text::chars_of;
use std::collections::HashMap;
use vstd::prelude::*;
use vstd::utf8::encode_utf8;

verus! {

/// Which part of a list a query asks for.
#[derive(Debug, Clone, Copy, PartialEq, Eq, Structural)]
pub struct Pagination {
    /// How many items to return at most.
    pub limit: Option<u32>,
    /// How many items to skip first.
    pub offset: u32,
}

impl Default for Pagination {
    fn default() -> (p: Pagination)
        ensures
            p == (Pagination { limit: None, offset: 0 }),
    {
        Pagination { limit: None, offset: 0 }
    }
}

/// The parameters that a query holds, each name with its value.
pub uninterp spec fn query_params(params: HashMap<String, String>) -> Map<Seq<char>, Seq<char>>;

/// Looks `name` up with `HashMap::get`: the value stored under a key equal
/// to `name`, or `None` where the map holds no such key.
#[verifier::external_body]
fn param<'a>(params: &'a HashMap<String, String>, name: &str) -> (value: Option<&'a String>)
    ensures
        value is Some <==> query_params(*params).contains_key(name@),
        value is Some ==> value->0@ == query_params(*params)[name@],
{
    params.get(name)
}

/// The value of the parameter `name`, if the query holds one.
pub open spec fn param_value(params: Map<Seq<char>, Seq<char>>, name: Seq<char>) -> Option<
    Seq<char>,
> {
    if params.contains_key(name) {
        Some(params[name])
    } else {
        None
    }
}

/// The pagination that the values of `limit` and `offset` ask for. Both must
/// be there, whatever they hold; then each must be a `u32` in decimal, and
/// where both are not, the failure of `limit` is the one reported.
pub open spec fn pagination_of(limit: Option<Seq<char>>, offset: Option<Seq<char>>) -> Result<
    Pagination,
    Error,
> {
    match (limit, offset) {
        (Some(limit), Some(offset)) => match parse_u32_text(encode_utf8(limit)) {
            Err(kind) => Err(Error::ParseError(kind)),
            Ok(limit) => match parse_u32_text(encode_utf8(offset)) {
                Err(kind) => Err(Error::ParseError(kind)),
                Ok(offset) => Ok(Pagination { limit: Some(limit), offset }),
            },
        },
        _ => Err(Error::MissingParameters),
    }
}

/// Reads the pagination from the values of `limit` and `offset`, each `None`
/// where the query does not hold the parameter.
pub fn pagination_from(limit: Option<&str>, offset: Option<&str>) -> (r: Result<Pagination, Error>)
    ensures
        r == pagination_of(chars_of(limit), chars_of(offset)),
{
    match (limit, offset) {
        (Some(limit), Some(offset)) => {
            let limit: u32 = match parse_u32(limit) {
                Ok(n) => n,
                Err(kind) => {
                    return Err(Error::ParseError(kind));
                },
            };
            let offset: u32 = match parse_u32(offset) {
                Ok(n) => n,
                Err(kind) => {
                    return Err(Error::ParseError(kind));
                },
            };
            Ok(Pagination { limit: Some(limit), offset })
        },
        _ => Err(Error::MissingParameters),
    }
}

/// Reads the pagination of a query such as `/questions?limit=1&offset=10`
/// from its parameters.
pub fn extract_pagination(params: HashMap<String, String>) -> (r: Result<Pagination, Error>)
    ensures
        r == pagination_of(
            param_value(query_params(params), "limit"@),
            param_value(query_params(params), "offset"@),
        ),
{
    let limit = match param(&params, "limit") {
        Some(text) => Some(text.as_str()),
        None => None,
    };
    let offset = match param(&params, "offset") {
        Some(text) => Some(text.as_str()),
        None => None,
    };
    pagination_from(limit, offset)
}

} // verus!
