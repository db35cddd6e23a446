use supplier_api::config::SqliteColumnNames;
use supplier_api::connection::{data_response, fixed_response};
use supplier_api::document::Json;
use supplier_api::errors::{DatabaseError, ErrorType};
use supplier_api::query_types::Query;
use supplier_api::responses::{standard_html_response, standard_json_response};
use supplier_api::socket::parse_port;
use supplier_api::text::parse_u64;

#[test]
fn ports_are_checked() {
    assert!(matches!(parse_port("8080".to_string()), Ok(8080)));
    assert!(matches!(parse_port("+1".to_string()), Ok(1)));
    assert!(matches!(parse_port("0".to_string()), Err(ErrorType::InvalidPort(_))));
    assert!(matches!(parse_port("65535".to_string()), Err(ErrorType::InvalidPort(_))));
    assert!(matches!(parse_port("65536".to_string()), Err(ErrorType::ParseError(_))));
    assert!(matches!(parse_port("http".to_string()), Err(ErrorType::ParseError(_))));
    assert!(matches!(parse_port("".to_string()), Err(ErrorType::ParseError(_))));
}

#[test]
fn unsigned_numbers_parse_as_std_does() {
    for s in ["0", "7", "+7", "007", "18446744073709551615", "18446744073709551616", "", "+", "-1", "1a", " 1"] {
        assert_eq!(parse_u64(s), s.parse::<u64>().ok(), "{}", s);
    }
}

#[test]
fn html_response_wraps_text() {
    let (body, ct, status) = standard_html_response(("404 Not Found", "HTTP/1.1 404 OK"));
    assert_eq!(body, "<p>404 Not Found</p>");
    assert_eq!(ct, "text/html");
    assert_eq!(status, "HTTP/1.1 404 OK");
}

#[test]
fn json_response_has_three_members() {
    let (doc, ct, status) = standard_json_response((400, false, "Bad Request", "HTTP/1.1 400 OK"));
    assert_eq!(ct, "application/json");
    assert_eq!(status, "HTTP/1.1 400 OK");
    match doc {
        Json::Object(m) => {
            assert_eq!(m.len(), 3);
            assert_eq!(m[0].0, "status_code");
            assert!(matches!(m[0].1, Json::Integer(400)));
            assert!(matches!(m[1].1, Json::Boolean(false)));
            assert!(matches!(&m[2].1, Json::Str(s) if s == "Bad Request"));
        }
        other => panic!("unexpected {:?}", other),
    }
}

#[test]
fn fixed_replies() {
    let (c, _, s) = fixed_response(&None).unwrap();
    assert_eq!(c, "<p>404 Not Found</p>");
    assert_eq!(s, "HTTP/1.1 404 NOT FOUND");
    let (c, ct, s) = fixed_response(&Some(Query::ApiInvalidUri)).unwrap();
    assert_eq!(c, "Invalid API uri");
    assert_eq!(ct, "application/json");
    assert_eq!(s, "HTTP/1.1 400 OK");
    assert!(fixed_response(&Some(Query::GETSuppliers)).is_none());
    let (c, _, s) = data_response(Err(DatabaseError::QueryError("x".to_string())));
    assert_eq!(c, "Api Error");
    assert_eq!(s, "HTTP/1.1 500 Internal Server Error");
    let (c, _, s) = data_response(Ok("{}".to_string()));
    assert_eq!(c, "{}");
    assert_eq!(s, "HTTP/1.1 200 OK");
}

#[test]
fn column_names_are_the_json_keys() {
    let n = SqliteColumnNames::new();
    assert_eq!(n.contact_id, "contactId");
    assert_eq!(n.address_line1, "line1");
    assert_eq!(n.category_type, "category");
}

#[test]
fn nested_set_keeps_member_order() {
    let mut j = Json::new_object();
    j.set("a", Json::Integer(1));
    j.set("contact", Json::Null);
    j.set("z", Json::Integer(2));
    j.set_nested("contact", "email", Json::Integer(3));
    j.set("a", Json::Integer(4));
    j.remove("z");
    match &j {
        Json::Object(m) => {
            assert_eq!(m.iter().map(|(k, _)| k.as_str()).collect::<Vec<_>>(), vec!["a", "contact"]);
            assert!(matches!(m[0].1, Json::Integer(4)));
            assert!(matches!(&m[1].1, Json::Object(inner) if inner.len() == 1));
        }
        other => panic!("unexpected {:?}", other),
    }
}
