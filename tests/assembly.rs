use supplier_api::data_structs::{
    db_data_into_table, set_json_object, DBTable, JsonStructType, RawValue, Value,
};
use supplier_api::document::Json;
use supplier_api::errors::DatabaseError;
use supplier_api::get_processing::{process_query, FetchStep};
use supplier_api::query_types::Query;
use supplier_api::sql::{get_sql, SqlParam};
use supplier_api::tables::{get_tables, supplier_table};

fn text(s: &str) -> RawValue {
    RawValue::String(s.to_string())
}

fn table(q: &Query, rows: Vec<Vec<RawValue>>) -> DBTable {
    let layout = get_tables(q);
    let n = layout.fields.len();
    db_data_into_table(n, &rows, layout).unwrap()
}

/// A store that always answers the same rows for the same descriptor.
fn store(q: &Query) -> DBTable {
    match q {
        Query::GETSupplierFromId(_) => table(
            q,
            vec![vec![
                RawValue::Integer(1),
                text("Acme"),
                RawValue::Integer(1),
                RawValue::Integer(4),
                RawValue::Integer(8),
                RawValue::Integer(2),
            ]],
        ),
        Query::GETSupplierEmailFromId(_) => table(q, vec![vec![RawValue::Integer(1), text("a@acme.test")]]),
        Query::GETSupplierNumbersFromId(_) => table(q, vec![]),
        Query::GETSupplierAddressFromId(_) => table(
            q,
            vec![vec![
                RawValue::Integer(4),
                text("1 Road"),
                RawValue::Null,
                text("Town"),
                RawValue::Null,
                text("AB1"),
            ]],
        ),
        Query::GETSupplierRepFromId(_) => table(
            q,
            vec![vec![RawValue::Integer(2), text("Ms"), text("Ann"), text("Lee"), RawValue::Integer(9)]],
        ),
        Query::GETSupplyRepEmailFromId(_) => table(q, vec![vec![RawValue::Integer(2), text("ann@acme.test")]]),
        Query::GETSupplyRepPhoneNumbersFromId(_) => table(q, vec![vec![RawValue::Integer(2), text("0123")]]),
        _ => table(q, vec![]),
    }
}

fn run(q: &Query, store: &dyn Fn(&Query) -> DBTable) -> Json {
    let mut fetched: Vec<DBTable> = Vec::new();
    loop {
        match process_query(q, &fetched).unwrap() {
            FetchStep::Fetch(next) => fetched.push(store(&next)),
            FetchStep::Done(doc) => return doc,
        }
    }
}

fn member<'a>(j: &'a Json, key: &str) -> Option<&'a Json> {
    match j {
        Json::Object(m) => m.iter().find(|(k, _)| k == key).map(|(_, v)| v),
        _ => None,
    }
}

fn keys(j: &Json) -> Vec<String> {
    match j {
        Json::Object(m) => m.iter().map(|(k, _)| k.clone()).collect(),
        _ => vec![],
    }
}

#[test]
fn supplier_document_is_assembled() {
    let doc = run(&Query::GETSupplierFromId(1), &store);
    assert_eq!(keys(&doc), vec!["code", "success", "payload"]);
    assert!(matches!(member(&doc, "code"), Some(Json::Integer(200))));
    assert!(matches!(member(&doc, "success"), Some(Json::Boolean(true))));
    let payload = member(&doc, "payload").unwrap();
    assert_eq!(keys(payload), vec!["id", "name", "active", "contact", "address", "rep"]);
    assert!(matches!(member(payload, "id"), Some(Json::Unsigned(1))));
    assert!(matches!(member(payload, "name"), Some(Json::Str(s)) if s == "Acme"));
    let contact = member(payload, "contact").unwrap();
    assert_eq!(keys(contact), vec!["email"]);
    match member(contact, "email") {
        Some(Json::Array(items)) => assert!(matches!(&items[..], [Json::Str(s)] if s == "a@acme.test")),
        other => panic!("unexpected {:?}", other),
    }
    let address = member(payload, "address").unwrap();
    assert_eq!(keys(address), vec!["line1", "line2", "town", "council", "postcode"]);
    assert!(matches!(member(address, "line2"), Some(Json::Null)));
    let rep = member(payload, "rep").unwrap();
    assert_eq!(keys(rep), vec!["title", "firstName", "lastName", "contact"]);
    let rep_contact = member(rep, "contact").unwrap();
    assert_eq!(keys(rep_contact), vec!["email", "number"]);
}

#[test]
fn absent_related_data_leaves_keys_unset() {
    let only_primary = |q: &Query| match q {
        Query::GETSupplierFromId(_) => store(q),
        _ => table(q, vec![]),
    };
    let doc = run(&Query::GETSupplierFromId(42), &only_primary);
    let payload = member(&doc, "payload").unwrap();
    assert_eq!(keys(payload), vec!["id", "name", "active"]);
    assert!(matches!(member(payload, "id"), Some(Json::Unsigned(42))));
}

#[test]
fn supplier_read_twice_is_identical() {
    let a = run(&Query::GETSupplierFromId(1), &store);
    let b = run(&Query::GETSupplierFromId(1), &store);
    assert_eq!(format!("{:?}", a), format!("{:?}", b));
}

#[test]
fn missing_supplier_gives_empty_envelope() {
    let empty = |q: &Query| table(q, vec![]);
    let doc = run(&Query::GETSupplierFromId(77), &empty);
    assert_eq!(keys(&doc), vec!["code", "success"]);
    assert!(matches!(member(&doc, "success"), Some(Json::Boolean(false))));
    assert!(member(&doc, "payload").is_none());
}

#[test]
fn fetch_order_of_supplier_read() {
    let q = Query::GETSupplierFromId(5);
    let mut fetched: Vec<DBTable> = Vec::new();
    let mut asked: Vec<String> = Vec::new();
    loop {
        match process_query(&q, &fetched).unwrap() {
            FetchStep::Fetch(next) => {
                asked.push(format!("{:?}", next));
                fetched.push(store(&next));
            }
            FetchStep::Done(_) => break,
        }
    }
    assert_eq!(
        asked,
        vec![
            "GETSupplierFromId(5)",
            "GETSupplierEmailFromId(5)",
            "GETSupplierNumbersFromId(5)",
            "GETSupplierAddressFromId(5)",
            "GETSupplierRepFromId(5)",
            "GETSupplyRepEmailFromId(2)",
            "GETSupplyRepPhoneNumbersFromId(2)",
        ]
    );
}

#[test]
fn rep_numbers_come_from_the_numbers_table() {
    let doc = run(&Query::GETSupplierRepFromId(1), &store);
    let payload = member(&doc, "payload").unwrap();
    let contact = member(payload, "contact").unwrap();
    match member(contact, "number") {
        Some(Json::Array(items)) => assert!(matches!(&items[..], [Json::Str(s)] if s == "0123")),
        other => panic!("unexpected {:?}", other),
    }
    assert!(member(payload, "contactId").is_none());
    assert!(member(payload, "id").is_some());
}

#[test]
fn unsupported_descriptor_is_not_implemented() {
    let r = process_query(&Query::ApiDoc, &Vec::new());
    assert!(matches!(r, Err(DatabaseError::NotImplemented(_))));
    let r = process_query(&Query::GETSupplierEmailFromId(1), &Vec::new());
    assert!(matches!(r, Err(DatabaseError::NotImplemented(_))));
}

#[test]
fn column_count_mismatch_is_a_query_error() {
    let rows = vec![vec![RawValue::Integer(1), text("x")]];
    let r = db_data_into_table(2, &rows, supplier_table());
    match r {
        Err(DatabaseError::QueryError(m)) => assert_eq!(m, "the statement has 2 columns but its layout has 6 fields"),
        other => panic!("unexpected {:?}", other.map(|_| ())),
    }
    let r = db_data_into_table(6, &rows, supplier_table());
    assert!(matches!(r, Err(DatabaseError::QueryError(_))));
}

#[test]
fn cells_are_coerced_or_nulled() {
    let q = Query::GETSuppliers;
    let rows = vec![vec![
        RawValue::Integer(3),
        RawValue::Integer(5),
        RawValue::String("yes".to_string()),
        RawValue::Null,
        RawValue::Integer(6),
        RawValue::Float(0x3ff0000000000000),
    ]];
    let t = table(&q, rows);
    let cells = &t.rows[0].cells;
    assert_eq!(cells.len(), 6);
    assert!(matches!(cells[0], Value::Integer(3)));
    assert!(matches!(cells[1], Value::Null));
    assert!(matches!(cells[2], Value::Null));
    assert!(matches!(cells[3], Value::Null));
    assert!(matches!(cells[5], Value::Null));
}

#[test]
fn projections_have_their_shapes() {
    let q = Query::GETSuppliersEmail;
    let t = table(&q, vec![vec![RawValue::Integer(1), text("a")], vec![RawValue::Integer(2), text("b")]]);
    match set_json_object(&t, JsonStructType::TableColumn(1)) {
        Json::Array(items) => assert!(matches!(&items[..], [Json::Str(a), Json::Str(b)] if a == "a" && b == "b")),
        other => panic!("unexpected {:?}", other),
    }
    match set_json_object(&t, JsonStructType::Table) {
        Json::Array(items) => assert_eq!(items.len(), 2),
        other => panic!("unexpected {:?}", other),
    }
    let first = set_json_object(&t, JsonStructType::Object);
    assert_eq!(keys(&first), vec!["id", "email"]);
    match set_json_object(&t, JsonStructType::TableColumn(9)) {
        Json::Array(items) => assert!(matches!(&items[..], [Json::Null, Json::Null])),
        other => panic!("unexpected {:?}", other),
    }
    let none = table(&q, vec![]);
    assert!(matches!(set_json_object(&none, JsonStructType::Object), Json::Null));
}

#[test]
fn binary_cells_become_byte_arrays() {
    match Value::Binary(vec![1, 255]).to_json() {
        Json::Array(items) => assert!(matches!(&items[..], [Json::Integer(1), Json::Integer(255)])),
        other => panic!("unexpected {:?}", other),
    }
}

#[test]
fn read_statements_bind_their_parameters() {
    let s = get_sql(&Query::GETSupplierNameFromId(7)).unwrap();
    assert_eq!(s.text, "SELECT name FROM supplier WHERE id = ?");
    assert!(matches!(&s.params[..], [SqlParam::Unsigned(7)]));
    let s = get_sql(&Query::GETSupplierIdFromName("O'Neil".to_string())).unwrap();
    assert_eq!(s.text, "SELECT id FROM supplier WHERE name = ?");
    assert!(matches!(&s.params[..], [SqlParam::Text(n)] if n == "O'Neil"));
    assert!(get_sql(&Query::ApiDoc).is_none());
}

#[test]
fn empty_layout_is_a_query_error() {
    let layout = get_tables(&Query::ApiDoc);
    assert_eq!(layout.fields.len(), 0);
    let r = db_data_into_table(0, &Vec::new(), layout);
    assert!(matches!(r, Err(DatabaseError::QueryError(_))));
}
