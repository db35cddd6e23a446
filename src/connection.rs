use vstd::prelude::*;
use std::collections::HashMap;
use crate::query_types::{Content, Query};
use crate::text::string_of;

verus! {

/// An HTTP request as the listener hands it to the API.
pub struct Request {
    pub method: String,
    pub path: String,
    pub http_version: String,
    pub headers: HashMap<String, String>,
    pub body: Content,
}

pub const STATUS_OK: &'static str = "HTTP/1.1 200 OK";
pub const STATUS_BAD_REQUEST: &'static str = "HTTP/1.1 400 OK";
pub const STATUS_NOT_FOUND: &'static str = "HTTP/1.1 404 NOT FOUND";
pub const STATUS_SERVER_ERROR: &'static str = "HTTP/1.1 500 Internal Server Error";
pub const API_DOCS: &'static str = "Api Docs";
pub const NOT_IN_API: &'static str = "This page does belong to the api";
pub const INVALID_URI: &'static str = "Invalid API uri";
pub const NOT_FOUND_PAGE: &'static str = "<p>404 Not Found</p>";
pub const API_ERROR: &'static str = "Api Error";

/// The reply to a routing outcome that needs no data: (content, content
/// type, status line). Descriptors that read or write data get `None`.
pub open spec fn fixed_reply(q: Option<Query>) -> Option<(Seq<char>, Seq<char>, Seq<char>)> {
    match q {
        None => Some((NOT_FOUND_PAGE@, crate::responses::TEXT_HTML@, STATUS_NOT_FOUND@)),
        Some(Query::ApiDoc) => Some((API_DOCS@, crate::responses::TEXT_HTML@, STATUS_OK@)),
        Some(Query::NoneApi) => Some((NOT_IN_API@, crate::responses::TEXT_HTML@, STATUS_OK@)),
        Some(Query::ApiInvalidUri) => Some((INVALID_URI@, crate::responses::APPLICATION_JSON@, STATUS_BAD_REQUEST@)),
        _ => None,
    }
}

fn triple(a: &str, b: &str, c: &str) -> (r: (String, String, String))
    ensures
        r.0@ == a@,
        r.1@ == b@,
        r.2@ == c@,
{
    (string_of(a), string_of(b), string_of(c))
}

/// The reply to a routing outcome that needs no data.
pub fn fixed_response(query: &Option<Query>) -> (r: Option<(String, String, String)>)
    ensures
        match fixed_reply(*query) {
            Some(m) => r matches Some(t) && (t.0@, t.1@, t.2@) == m,
            None => r is None,
        },
{
    match query {
        None => Some(triple(NOT_FOUND_PAGE, crate::responses::TEXT_HTML, STATUS_NOT_FOUND)),
        Some(Query::ApiDoc) => Some(triple(API_DOCS, crate::responses::TEXT_HTML, STATUS_OK)),
        Some(Query::NoneApi) => Some(triple(NOT_IN_API, crate::responses::TEXT_HTML, STATUS_OK)),
        Some(Query::ApiInvalidUri) => Some(triple(INVALID_URI, crate::responses::APPLICATION_JSON, STATUS_BAD_REQUEST)),
        _ => None,
    }
}

/// The reply to a data request once the store has answered: the document
/// on success, a plain error page otherwise.
pub fn data_response(result: Result<String, crate::errors::DatabaseError>) -> (r: (String, String, String))
    ensures
        match result {
            Ok(content) => r.0@ == content@ && r.1@ == crate::responses::APPLICATION_JSON@ && r.2@ == STATUS_OK@,
            Err(_) => r.0@ == API_ERROR@ && r.1@ == crate::responses::TEXT_HTML@ && r.2@ == STATUS_SERVER_ERROR@,
        },
{
    match result {
        Ok(content) => (content, string_of(crate::responses::APPLICATION_JSON), string_of(STATUS_OK)),
        Err(_) => triple(API_ERROR, crate::responses::TEXT_HTML, STATUS_SERVER_ERROR),
    }
}

} // verus!
