use vstd::prelude::*;
use crate::document::Json;

verus! {

/// The body of a request.
#[derive(Debug)]
pub enum Content {
    Json(Json),
    Html(String),
    Text(String),
    Binary(Vec<u8>),
    Empty,
}

/// A bound query descriptor: one operation of the API with its parameters,
/// or one of the three outcomes that carry no operation.
#[derive(Debug)]
pub enum Query {
    GETSuppliers,
    GETSuppliersEmail,
    GETSuppliersNumbers,
    GETSuppliersCategories,
    GETSupplierNameFromId(u64),
    GETSupplierFromId(u64),
    GETSupplierIdFromName(String),
    GETSupplierEmailFromId(u64),
    GETSupplierNumbersFromId(u64),
    GETSupplierAddressFromId(u64),
    GETSupplierCategoriesFromId(u64),
    GETSupplierRepFromId(u64),
    GETSupplyRepFromId(u64),
    GETSupplyRepPhoneNumbersFromId(u64),
    GETSupplyRepEmailFromId(u64),
    POSTSupplier(Content),
    POSTAddress(Content),
    POSTContactEmails(Content),
    POSTContactPhoneNumbers(Content),
    ApiInvalidUri,
    NoneApi,
    ApiDoc,
}

/// A descriptor template: the operation that a route is bound to, before its
/// parameters are known.
#[derive(Debug, Clone, Copy, PartialEq, Eq, Structural)]
pub enum QueryKind {
    GETSuppliers,
    GETSuppliersEmail,
    GETSuppliersNumbers,
    GETSuppliersCategories,
    GETSupplierNameFromId,
    GETSupplierFromId,
    GETSupplierIdFromName,
    GETSupplierEmailFromId,
    GETSupplierNumbersFromId,
    GETSupplierAddressFromId,
    GETSupplierCategoriesFromId,
    GETSupplierRepFromId,
    GETSupplyRepFromId,
    GETSupplyRepPhoneNumbersFromId,
    GETSupplyRepEmailFromId,
    POSTSupplier,
    POSTAddress,
    POSTContactEmails,
    POSTContactPhoneNumbers,
}

impl QueryKind {
    /// Templates whose single parameter is an unsigned id.
    pub open spec fn takes_id(self) -> bool {
        match self {
            QueryKind::GETSupplierNameFromId | QueryKind::GETSupplierFromId
            | QueryKind::GETSupplierEmailFromId | QueryKind::GETSupplierNumbersFromId
            | QueryKind::GETSupplierAddressFromId | QueryKind::GETSupplierCategoriesFromId
            | QueryKind::GETSupplierRepFromId | QueryKind::GETSupplyRepFromId
            | QueryKind::GETSupplyRepPhoneNumbersFromId | QueryKind::GETSupplyRepEmailFromId => true,
            _ => false,
        }
    }

    /// Templates that create data from a request body.
    pub open spec fn creates(self) -> bool {
        match self {
            QueryKind::POSTSupplier | QueryKind::POSTAddress | QueryKind::POSTContactEmails
            | QueryKind::POSTContactPhoneNumbers => true,
            _ => false,
        }
    }
}

/// The descriptor of an id template bound to `id`.
pub open spec fn with_id(kind: QueryKind, id: u64) -> Query {
    match kind {
        QueryKind::GETSupplierNameFromId => Query::GETSupplierNameFromId(id),
        QueryKind::GETSupplierFromId => Query::GETSupplierFromId(id),
        QueryKind::GETSupplierEmailFromId => Query::GETSupplierEmailFromId(id),
        QueryKind::GETSupplierNumbersFromId => Query::GETSupplierNumbersFromId(id),
        QueryKind::GETSupplierAddressFromId => Query::GETSupplierAddressFromId(id),
        QueryKind::GETSupplierCategoriesFromId => Query::GETSupplierCategoriesFromId(id),
        QueryKind::GETSupplierRepFromId => Query::GETSupplierRepFromId(id),
        QueryKind::GETSupplyRepFromId => Query::GETSupplyRepFromId(id),
        QueryKind::GETSupplyRepPhoneNumbersFromId => Query::GETSupplyRepPhoneNumbersFromId(id),
        _ => Query::GETSupplyRepEmailFromId(id),
    }
}

/// The descriptor of a create template carrying `body`.
pub open spec fn with_body(kind: QueryKind, body: Content) -> Query {
    match kind {
        QueryKind::POSTSupplier => Query::POSTSupplier(body),
        QueryKind::POSTAddress => Query::POSTAddress(body),
        QueryKind::POSTContactEmails => Query::POSTContactEmails(body),
        _ => Query::POSTContactPhoneNumbers(body),
    }
}

pub fn bind_id(kind: QueryKind, id: u64) -> (r: Query)
    requires
        kind.takes_id(),
    ensures
        r == with_id(kind, id),
{
    match kind {
        QueryKind::GETSupplierNameFromId => Query::GETSupplierNameFromId(id),
        QueryKind::GETSupplierFromId => Query::GETSupplierFromId(id),
        QueryKind::GETSupplierEmailFromId => Query::GETSupplierEmailFromId(id),
        QueryKind::GETSupplierNumbersFromId => Query::GETSupplierNumbersFromId(id),
        QueryKind::GETSupplierAddressFromId => Query::GETSupplierAddressFromId(id),
        QueryKind::GETSupplierCategoriesFromId => Query::GETSupplierCategoriesFromId(id),
        QueryKind::GETSupplierRepFromId => Query::GETSupplierRepFromId(id),
        QueryKind::GETSupplyRepFromId => Query::GETSupplyRepFromId(id),
        QueryKind::GETSupplyRepPhoneNumbersFromId => Query::GETSupplyRepPhoneNumbersFromId(id),
        _ => Query::GETSupplyRepEmailFromId(id),
    }
}

fn bind_body(kind: QueryKind, body: Content) -> (r: Query)
    requires
        kind.creates(),
    ensures
        r == with_body(kind, body),
{
    match kind {
        QueryKind::POSTSupplier => Query::POSTSupplier(body),
        QueryKind::POSTAddress => Query::POSTAddress(body),
        QueryKind::POSTContactEmails => Query::POSTContactEmails(body),
        _ => Query::POSTContactPhoneNumbers(body),
    }
}

/// What binding `kind` to the captured segments `vars` and the request body
/// gives: ids are parsed, names are percent-decoded as UTF-8, bodies must be JSON;
/// a value that does not fit yields `ApiInvalidUri`.
pub open spec fn bound(kind: QueryKind, vars: Seq<Seq<char>>, body: Content, r: Query) -> bool {
    match kind {
        QueryKind::GETSuppliers => r == Query::GETSuppliers,
        QueryKind::GETSuppliersEmail => r == Query::GETSuppliersEmail,
        QueryKind::GETSuppliersNumbers => r == Query::GETSuppliersNumbers,
        QueryKind::GETSuppliersCategories => r == Query::GETSuppliersCategories,
        QueryKind::GETSupplierIdFromName => match if vars.len() > 0 {
            crate::text::percent_decoded(vars[0])
        } else {
            None
        } {
            Some(d) => r matches Query::GETSupplierIdFromName(name) && name@ == d,
            None => r == Query::ApiInvalidUri,
        },
        _ => if kind.takes_id() {
            match if vars.len() > 0 { crate::text::parsed_u64(vars[0]) } else { None } {
                Some(id) => r == with_id(kind, id),
                None => r == Query::ApiInvalidUri,
            }
        } else {
            match body {
                Content::Json(_) => r == with_body(kind, body),
                _ => r == Query::ApiInvalidUri,
            }
        },
    }
}

/// Binds a template to the segments captured by the route tree, in capture
/// order, and to the request body.
pub fn query_with_path_variables(kind: QueryKind, variables: &Vec<String>, body: Content) -> (r: Query)
    ensures
        bound(kind, variables@.map_values(|s: String| s@), body, r),
{
    let ghost vars = variables@.map_values(|s: String| s@);
    match kind {
        QueryKind::GETSuppliers => Query::GETSuppliers,
        QueryKind::GETSuppliersEmail => Query::GETSuppliersEmail,
        QueryKind::GETSuppliersNumbers => Query::GETSuppliersNumbers,
        QueryKind::GETSuppliersCategories => Query::GETSuppliersCategories,
        QueryKind::GETSupplierIdFromName => {
            if variables.len() == 0 {
                return Query::ApiInvalidUri;
            }
            match crate::text::percent_decode(variables[0].as_str()) {
                Some(name) => Query::GETSupplierIdFromName(name),
                None => Query::ApiInvalidUri,
            }
        },
        QueryKind::POSTSupplier | QueryKind::POSTAddress | QueryKind::POSTContactEmails
        | QueryKind::POSTContactPhoneNumbers => {
            match body {
                Content::Json(j) => bind_body(kind, Content::Json(j)),
                _ => Query::ApiInvalidUri,
            }
        },
        _ => {
            if variables.len() == 0 {
                return Query::ApiInvalidUri;
            }
            match crate::text::parse_u64(variables[0].as_str()) {
                Some(id) => bind_id(kind, id),
                None => Query::ApiInvalidUri,
            }
        },
    }
}

/// The HTTP method that a descriptor may be requested with: `Some(true)` for
/// POST, `Some(false)` for GET, `None` for the outcomes that carry no
/// operation.
pub open spec fn wants_post(q: Query) -> Option<bool> {
    match q {
        Query::POSTSupplier(_) | Query::POSTAddress(_) | Query::POSTContactEmails(_)
        | Query::POSTContactPhoneNumbers(_) => Some(true),
        Query::ApiInvalidUri | Query::NoneApi | Query::ApiDoc => None,
        _ => Some(false),
    }
}

/// Whether `method` is the one that `q` may be requested with.
pub open spec fn method_fits(q: Query, method: Seq<char>) -> bool {
    match wants_post(q) {
        Some(true) => method == "POST"@,
        Some(false) => method == "GET"@,
        None => true,
    }
}

/// Holds a bound descriptor to the request's method: a descriptor requested
/// with another method than its own becomes `ApiInvalidUri`.
pub fn check_method(query: Query, method: &str) -> (r: Query)
    ensures
        r == if method_fits(query, method@) {
            query
        } else {
            Query::ApiInvalidUri
        },
{
    let post = match &query {
        Query::POSTSupplier(_) | Query::POSTAddress(_) | Query::POSTContactEmails(_)
        | Query::POSTContactPhoneNumbers(_) => 1u8,
        Query::ApiInvalidUri | Query::NoneApi | Query::ApiDoc => 2u8,
        _ => 0u8,
    };
    if post == 2 {
        return query;
    }
    let fits = if post == 1 {
        crate::text::same_text(method, "POST")
    } else {
        crate::text::same_text(method, "GET")
    };
    if fits {
        query
    } else {
        Query::ApiInvalidUri
    }
}

} // verus!
