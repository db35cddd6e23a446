use supplier_api::query_types::{check_method, Content, Query, QueryKind};
use supplier_api::routing::{uri_to_api_query, ApiTree, Resolution};
use supplier_api::text::uri_seg_decode;

fn route(path: &str) -> Option<Query> {
    let tree = ApiTree::new();
    uri_to_api_query(&path.to_string(), &tree, Content::Empty)
}

fn found(path: &str) -> (QueryKind, Vec<String>) {
    let tree = ApiTree::new();
    match tree.resolve(path) {
        Resolution::Found(k, caps) => (k, caps),
        _ => panic!("{} did not resolve", path),
    }
}

#[test]
fn test_uri_seg_decode() {
    let uri = "/api/supplier/1/Mr%20Smith%20%26%20Co%20Ltd/name";
    let decoded = uri_seg_decode(uri);
    assert_eq!(decoded, "/api/supplier/1/Mr Smith & Co Ltd/name");
}

#[test]
fn decode_leaves_bad_escapes_alone() {
    assert_eq!(uri_seg_decode("100%"), "100%");
    assert_eq!(uri_seg_decode("%zz%4"), "%zz%4");
    assert_eq!(uri_seg_decode("%41%62"), "Ab");
    assert_eq!(uri_seg_decode("%2541"), "%41");
    assert_eq!(uri_seg_decode("%2541%41"), "%41A");
    assert_eq!(uri_seg_decode("caf%C3%A9"), "café");
    assert_eq!(uri_seg_decode("%FF%41"), "%FF%41");
    assert_eq!(uri_seg_decode(""), "");
}

#[test]
fn literal_routes_capture_nothing() {
    assert_eq!(found("/api/suppliers"), (QueryKind::GETSuppliers, vec![]));
    assert_eq!(found("/api/suppliers/email"), (QueryKind::GETSuppliersEmail, vec![]));
    assert_eq!(found("/api/suppliers/numbers"), (QueryKind::GETSuppliersNumbers, vec![]));
    assert_eq!(found("/api/suppliers/categories"), (QueryKind::GETSuppliersCategories, vec![]));
    assert_eq!(found("/api/supplier"), (QueryKind::POSTSupplier, vec![]));
}

#[test]
fn wildcard_routes_capture_in_order() {
    assert_eq!(found("/api/supplier/12"), (QueryKind::GETSupplierFromId, vec!["12".to_string()]));
    assert_eq!(found("/api/supplier/12/name"), (QueryKind::GETSupplierNameFromId, vec!["12".to_string()]));
    assert_eq!(found("/api/supplier/12/address"), (QueryKind::GETSupplierAddressFromId, vec!["12".to_string()]));
    assert_eq!(found("/api/supplier/12/rep"), (QueryKind::GETSupplierRepFromId, vec!["12".to_string()]));
    assert_eq!(found("/api/supplier/12/categories"), (QueryKind::GETSupplierCategoriesFromId, vec!["12".to_string()]));
    assert_eq!(found("/api/supplier/rep/3/email"), (QueryKind::GETSupplyRepEmailFromId, vec!["3".to_string()]));
    assert_eq!(found("/api/supplier/rep/3/numbers"), (QueryKind::GETSupplyRepPhoneNumbersFromId, vec!["3".to_string()]));
    assert_eq!(found("/api/supplier/id/Acme"), (QueryKind::GETSupplierIdFromName, vec!["Acme".to_string()]));
}

#[test]
fn literal_branch_wins_over_wildcard() {
    // `rep` and `id` are literal siblings of the `{}` id branch.
    assert_eq!(found("/api/supplier/rep/7"), (QueryKind::GETSupplyRepFromId, vec!["7".to_string()]));
    assert!(matches!(route("/api/supplier/id/7"), Some(Query::GETSupplierIdFromName(ref n)) if n == "7"));
    // below `rep/{}`, `numbers` is a literal child and is never captured
    assert_eq!(found("/api/supplier/rep/9/numbers").1, vec!["9".to_string()]);
}

#[test]
fn api_root_and_foreign_paths() {
    assert!(matches!(route("/api"), Some(Query::ApiDoc)));
    assert!(matches!(route("/api/"), Some(Query::ApiDoc)));
    assert!(matches!(route("/billing"), Some(Query::NoneApi)));
    assert!(matches!(route("/api/bogus"), Some(Query::ApiInvalidUri)));
    assert!(route("").is_none());
    assert!(route("api").is_none());
}

#[test]
fn trailing_slash_falls_back_on_the_node() {
    assert!(matches!(route("/api/suppliers/"), Some(Query::GETSuppliers)));
    assert!(matches!(route("/api/suppliers/email/extra/more"), Some(Query::ApiInvalidUri)));
}

#[test]
fn non_numeric_id_is_invalid() {
    assert!(matches!(route("/api/supplier/abc"), Some(Query::ApiInvalidUri)));
    assert!(matches!(route("/api/supplier/abc/name"), Some(Query::ApiInvalidUri)));
    assert!(matches!(route("/api/supplier/rep/x1"), Some(Query::ApiInvalidUri)));
    assert!(matches!(route("/api/supplier/18446744073709551616"), Some(Query::ApiInvalidUri)));
    assert!(matches!(route("/api/supplier/18446744073709551615"), Some(Query::GETSupplierFromId(18446744073709551615))));
    assert!(matches!(route("/api/supplier/42/name"), Some(Query::GETSupplierNameFromId(42))));
}

#[test]
fn name_segment_is_percent_decoded() {
    let q = route("/api/supplier/id/Mr%20Smith%20%26%20Co%20Ltd/name");
    match q {
        Some(Query::GETSupplierIdFromName(name)) => assert_eq!(name, "Mr Smith & Co Ltd"),
        other => panic!("unexpected {:?}", other),
    }
}

#[test]
fn name_that_is_not_utf8_is_invalid() {
    assert!(matches!(route("/api/supplier/id/%C3"), Some(Query::ApiInvalidUri)));
    match route("/api/supplier/id/Caf%C3%A9") {
        Some(Query::GETSupplierIdFromName(name)) => assert_eq!(name, "Café"),
        other => panic!("unexpected {:?}", other),
    }
}

#[test]
fn rendered_id_binds_back() {
    for n in [0u64, 7, 10, 4096, u64::MAX] {
        let path = format!("/api/supplier/{}", n);
        assert!(matches!(route(&path), Some(Query::GETSupplierFromId(m)) if m == n));
    }
}

#[test]
fn create_route_needs_a_json_body() {
    let tree = ApiTree::new();
    let path = "/api/supplier".to_string();
    assert!(matches!(uri_to_api_query(&path, &tree, Content::Empty), Some(Query::ApiInvalidUri)));
    let body = supplier_api::document::Json::new_object();
    assert!(matches!(uri_to_api_query(&path, &tree, Content::Json(body)), Some(Query::POSTSupplier(Content::Json(_)))));
}

#[test]
fn method_must_fit_the_descriptor() {
    assert!(matches!(check_method(Query::GETSuppliers, "GET"), Query::GETSuppliers));
    assert!(matches!(check_method(Query::GETSuppliers, "POST"), Query::ApiInvalidUri));
    assert!(matches!(check_method(Query::POSTSupplier(Content::Empty), "POST"), Query::POSTSupplier(_)));
    assert!(matches!(check_method(Query::POSTSupplier(Content::Empty), "GET"), Query::ApiInvalidUri));
    assert!(matches!(check_method(Query::ApiDoc, "DELETE"), Query::ApiDoc));
}

#[test]
fn tree_nodes_answer_lookups() {
    let tree = ApiTree::new();
    assert!(tree.tree.has_children());
    let supplier = tree.tree.get_next("supplier").unwrap();
    assert_eq!(supplier.seg_number, 1);
    assert!(supplier.get_next("{}").is_some());
    assert!(supplier.get_next("nothing").is_none());
    let mut node = supplier_api::routing::PathSegment::new("x".to_string(), 0);
    assert!(!node.has_children());
    let at = node.child_seg_by_value("y".to_string());
    assert_eq!(at, 0);
    assert_eq!(node.children_segments[0].seg_number, 1);
}
