use supplier_api::data_structs::Value;
use supplier_api::document::Json;
use supplier_api::errors::{DatabaseError, ErrorType};
use supplier_api::post_processing::{extract_json_to_table, process_query, written_response};
use supplier_api::query_types::{Content, Query};
use supplier_api::sql::{insert_email_contact, insert_phone_contact, post_sql, update_supplier_address_id, update_supplier_rep_id, SqlParam, UpdateOnId};
use supplier_api::tables::post_tables;

fn obj(members: Vec<(&str, Json)>) -> Json {
    let mut j = Json::new_object();
    for (k, v) in members {
        j.set(k, v);
    }
    j
}

fn s(x: &str) -> Json {
    Json::Str(x.to_string())
}

#[test]
fn supplier_body_is_extracted_in_layout_order() {
    let body = obj(vec![("active", Json::Boolean(true)), ("name", s("Acme"))]);
    let q = Query::POSTSupplier(Content::Empty);
    let values = extract_json_to_table(&body, post_tables(&q)).unwrap();
    assert_eq!(values.len(), 2);
    assert_eq!(values[0].0, "name");
    assert!(matches!(values[1].1, Value::Boolean(true)));
    let st = post_sql(&q, &values).unwrap();
    assert_eq!(st.text, "INSERT INTO supplier (name, active) VALUES (?, ?)");
    assert!(matches!(&st.params[..], [SqlParam::Text(n), SqlParam::Integer(1)] if n == "Acme"));
}

#[test]
fn missing_or_mistyped_fields_are_refused() {
    let q = Query::POSTSupplier(Content::Empty);
    let body = obj(vec![("name", s("Acme"))]);
    assert!(matches!(extract_json_to_table(&body, post_tables(&q)), Err(DatabaseError::SubmissionError(_))));
    let body = obj(vec![("name", Json::Integer(3)), ("active", Json::Boolean(false))]);
    assert!(matches!(extract_json_to_table(&body, post_tables(&q)), Err(DatabaseError::SubmissionError(_))));
}

#[test]
fn optional_address_fields_bind_null() {
    let q = Query::POSTAddress(Content::Empty);
    let body = obj(vec![("line1", s("1 Road")), ("town", s("Town")), ("postcode", s("AB1"))]);
    let values = extract_json_to_table(&body, post_tables(&q)).unwrap();
    assert_eq!(values.len(), 3);
    let st = post_sql(&q, &values).unwrap();
    assert!(matches!(
        &st.params[..],
        [SqlParam::Text(_), SqlParam::Null, SqlParam::Text(_), SqlParam::Null, SqlParam::Text(_)]
    ));
}

#[test]
fn supplier_with_address_plans_three_statements() {
    let address = obj(vec![("line1", s("1 Road")), ("town", s("Town")), ("postcode", s("AB1"))]);
    let body = obj(vec![("name", s("Acme")), ("active", Json::Boolean(false)), ("address", address)]);
    let plan = process_query(&Query::POSTSupplier(Content::Empty), &body).unwrap();
    assert_eq!(plan.len(), 3);
    assert!(plan[0].text.starts_with("INSERT INTO supplier"));
    assert!(plan[1].text.starts_with("INSERT INTO address"));
    assert!(plan[2].text.starts_with("UPDATE supplier SET fk_address"));
    assert!(matches!(&plan[0].params[..], [_, SqlParam::Integer(0)]));
}

#[test]
fn nested_contact_and_rep_are_planned() {
    let contact = obj(vec![
        ("email", Json::Array(vec![s("a@b"), s("c@d")])),
        ("number", s("0123")),
    ]);
    let rep = obj(vec![("firstName", s("Ann")), ("lastName", s("Lee"))]);
    let body = obj(vec![("name", s("Acme")), ("active", Json::Boolean(true)), ("contact", contact), ("rep", rep)]);
    let plan = process_query(&Query::POSTSupplier(Content::Empty), &body).unwrap();
    let texts: Vec<&str> = plan.iter().map(|p| p.text.as_str()).collect();
    assert_eq!(texts.len(), 7);
    assert_eq!(texts[1], "INSERT INTO emails (email) VALUES (?), (?)");
    assert!(texts[2].starts_with("INSERT INTO contact_email (fk_email_addresses, fk_contact) SELECT id"));
    assert!(texts[2].ends_with("WHERE email IN (?, ?)"));
    assert_eq!(texts[3], "INSERT INTO phone_numbers (number) VALUES (?)");
    assert!(texts[4].ends_with("WHERE number IN (?)"));
    assert_eq!(texts[5], "INSERT INTO supply_rep (FirstName, LastName) VALUES (?, ?)");
    assert!(texts[6].starts_with("UPDATE supplier SET fk_supply_rep"));
    assert!(matches!(&plan[2].params[..], [SqlParam::Text(a), SqlParam::Text(b)] if a == "a@b" && b == "c@d"));
}

#[test]
fn bad_contact_lists_are_refused() {
    let base = |contact: Json| obj(vec![("name", s("Acme")), ("active", Json::Boolean(true)), ("contact", contact)]);
    for bad in [
        obj(vec![("email", Json::Integer(3))]),
        obj(vec![("email", Json::Array(vec![]))]),
        obj(vec![("number", Json::Array(vec![s("1"), Json::Boolean(true)]))]),
    ] {
        let r = process_query(&Query::POSTSupplier(Content::Empty), &base(bad));
        assert!(matches!(r, Err(DatabaseError::SubmissionError(_))));
    }
    let rep = obj(vec![("firstName", s("Ann"))]);
    let body = obj(vec![("name", s("Acme")), ("active", Json::Boolean(true)), ("rep", rep)]);
    assert!(matches!(process_query(&Query::POSTSupplier(Content::Empty), &body), Err(DatabaseError::SubmissionError(_))));
}

#[test]
fn contact_lists_alone_are_planned() {
    let body = obj(vec![("email", s("a@b"))]);
    let plan = process_query(&Query::POSTContactEmails(Content::Empty), &body).unwrap();
    assert_eq!(plan.len(), 1);
    assert_eq!(plan[0].text, "INSERT INTO emails (email) VALUES (?)");
    let r = process_query(&Query::POSTContactPhoneNumbers(Content::Empty), &Json::new_object());
    assert!(matches!(r, Err(DatabaseError::SubmissionError(_))));
}

#[test]
fn address_alone_reads_the_address_member() {
    let body = obj(vec![("address", obj(vec![("line1", s("1")), ("town", s("T")), ("postcode", s("P"))]))]);
    let plan = process_query(&Query::POSTAddress(Content::Empty), &body).unwrap();
    assert_eq!(plan.len(), 1);
    let r = process_query(&Query::POSTAddress(Content::Empty), &Json::new_object());
    assert!(matches!(r, Err(DatabaseError::SubmissionError(_))));
    let r = process_query(&Query::GETSuppliers, &Json::new_object());
    assert!(matches!(r, Err(DatabaseError::SubmissionError(_))));
}

#[test]
fn contact_lists_insert_one_group_per_value() {
    let q = Query::POSTContactEmails(Content::Empty);
    let values = vec![
        ("0".to_string(), Value::String("a@x".to_string())),
        ("1".to_string(), Value::String("b@x".to_string())),
    ];
    let st = post_sql(&q, &values).unwrap();
    assert_eq!(st.text, "INSERT INTO emails (email) VALUES (?), (?)");
    assert!(post_sql(&q, &Vec::new()).is_none());
}

#[test]
fn link_statements_pair_ids_with_the_contact() {
    let st = insert_email_contact(&vec![3, 4], 9).unwrap();
    assert_eq!(st.text, "INSERT INTO contact_email (fk_email_addresses, fk_contact) VALUES (?, ?), (?, ?)");
    assert!(matches!(&st.params[..], [SqlParam::Integer(3), SqlParam::Integer(9), SqlParam::Integer(4), SqlParam::Integer(9)]));
    assert!(insert_phone_contact(&vec![], 9).is_none());
    let st = insert_phone_contact(&vec![5], 1).unwrap();
    assert_eq!(st.text, "INSERT INTO contact_phone (fk_phone_number, fk_contact) VALUES (?, ?)");
}

#[test]
fn foreign_key_updates() {
    let st = update_supplier_address_id(4, UpdateOnId::Id(2));
    assert_eq!(st.text, "UPDATE supplier SET fk_address = ? WHERE id = ?");
    assert!(matches!(&st.params[..], [SqlParam::Integer(2), SqlParam::Integer(4)]));
    let st = update_supplier_rep_id(4, UpdateOnId::Latest);
    assert_eq!(st.text, "UPDATE supplier SET fk_supply_rep = (SELECT MAX(id) FROM supply_rep) WHERE id = ?");
    assert!(matches!(&st.params[..], [SqlParam::Integer(4)]));
}

#[test]
fn written_envelope_reports_success() {
    match written_response() {
        Json::Object(m) => {
            assert_eq!(m.len(), 3);
            assert!(matches!(&m[2].1, Json::Str(x) if x == "Insertion success"));
        }
        other => panic!("unexpected {:?}", other),
    }
}

#[test]
fn error_messages_are_returned() {
    let e = DatabaseError::QueryError("boom".to_string());
    assert_eq!(e.message(), "boom");
    let e = ErrorType::InvalidIp("bad ip".to_string());
    assert_eq!(e.message(), "bad ip");
}
