use vstd::prelude::*;
use crate::document::{Json, JsonModel};
use crate::text::string_of;

verus! {

pub const STATUS_CODE: &'static str = "status_code";
pub const SUCCESS: &'static str = "success";
pub const MESSAGE: &'static str = "message";
pub const APPLICATION_JSON: &'static str = "application/json";
pub const TEXT_HTML: &'static str = "text/html";
pub const PARAGRAPH_OPEN: &'static str = "<p>";
pub const PARAGRAPH_CLOSE: &'static str = "</p>";

/// The body of a standard JSON reply.
pub open spec fn standard_json(code: u16, success: bool, message: Seq<char>) -> JsonModel {
    JsonModel::Object(
        seq![
            (STATUS_CODE@, JsonModel::Integer(code as i64)),
            (SUCCESS@, JsonModel::Boolean(success)),
            (MESSAGE@, JsonModel::Str(message)),
        ],
    )
}

/// A standard JSON reply from (status code, success, message, status line):
/// the document, its content type and the status line.
pub fn standard_json_response(json_response: (u16, bool, &str, &str)) -> (r: (Json, String, String))
    ensures
        r.0@ == standard_json(json_response.0, json_response.1, json_response.2@),
        r.1@ == APPLICATION_JSON@,
        r.2@ == json_response.3@,
{
    let mut doc = Json::new_object();
    doc.set(STATUS_CODE, Json::Integer(json_response.0 as i64));
    doc.set(SUCCESS, Json::Boolean(json_response.1));
    doc.set(MESSAGE, Json::text(json_response.2));
    proof {
        reveal_strlit("status_code");
        reveal_strlit("success");
        reveal_strlit("message");
        assert(STATUS_CODE@.len() == 11);
        assert(SUCCESS@ =~= seq!['s', 'u', 'c', 'c', 'e', 's', 's']);
        assert(MESSAGE@ =~= seq!['m', 'e', 's', 's', 'a', 'g', 'e']);
        reveal_with_fuel(crate::document::member_index, 4);
    }
    assert(doc@->Object_0 =~= standard_json(json_response.0, json_response.1, json_response.2@)->Object_0);
    (doc, string_of(APPLICATION_JSON), string_of(json_response.3))
}

/// A standard HTML reply from (text, status line): the text in a
/// paragraph, its content type and the status line.
pub fn standard_html_response(html_response: (&str, &str)) -> (r: (String, String, String))
    ensures
        r.0@ == PARAGRAPH_OPEN@ + html_response.0@ + PARAGRAPH_CLOSE@,
        r.1@ == TEXT_HTML@,
        r.2@ == html_response.1@,
{
    let mut page = string_of(PARAGRAPH_OPEN);
    page.append(html_response.0);
    page.append(PARAGRAPH_CLOSE);
    (page, string_of(TEXT_HTML), string_of(html_response.1))
}

} // verus!
