use vstd::prelude::*;
use crate::data_structs::{Cell, Value};
use crate::document::{Json, JsonModel, items_model, lemma_items_model};
use crate::errors::DatabaseError;
use crate::query_types::Query;
use crate::text::{string_of, same_text};

verus! {

pub const SQL_SUPPLIERS: &'static str = "SELECT * FROM supplier";
pub const SQL_SUPPLIERS_EMAIL: &'static str = "SELECT * FROM view_suppliers_email";
pub const SQL_SUPPLIERS_NUMBERS: &'static str = "SELECT * FROM view_suppliers_numbers";
pub const SQL_SUPPLIERS_CATEGORIES: &'static str = "SELECT * FROM supply_categories";
pub const SQL_SUPPLIER_NAME: &'static str = "SELECT name FROM supplier WHERE id = ?";
pub const SQL_SUPPLIER: &'static str = "SELECT * FROM view_suppliers WHERE id = ?";
pub const SQL_SUPPLIER_ID: &'static str = "SELECT id FROM supplier WHERE name = ?";
pub const SQL_SUPPLIER_EMAIL: &'static str = "SELECT * FROM view_suppliers_email WHERE supplierId = ?";
pub const SQL_SUPPLIER_NUMBERS: &'static str = "SELECT * FROM view_suppliers_numbers WHERE supplierId = ?";
pub const SQL_SUPPLIER_ADDRESS: &'static str = "SELECT address.id, address.Line1, address.Line2, address.Town, address.Council, address.Postcode FROM address, (SELECT supplier.fk_address AS AddressID FROM supplier WHERE supplier.id = ?) AS sa WHERE sa.AddressID = address.id";
pub const SQL_SUPPLIER_CATEGORIES: &'static str = "SELECT s.fk_supply_category AS CategoryID, c.Type AS Category FROM supplier_supplies AS s LEFT JOIN supply_categories AS c ON s.fk_supply_category = c.id WHERE s.fk_supplier = ?";
pub const SQL_SUPPLIER_REP: &'static str = "SELECT sr.id, (SELECT title FROM person_title WHERE sr.fk_person_title = person_title.id) AS Title, sr.FirstName, sr.LastName, sr.fk_contact AS ContactID FROM supply_rep AS sr, (SELECT supplier.fk_supply_rep AS RepID FROM supplier WHERE supplier.id = ?) AS s WHERE s.RepID = sr.id";
pub const SQL_SUPPLY_REP: &'static str = "SELECT (SELECT title FROM person_title WHERE sr.fk_person_title = person_title.id) AS Title, sr.FirstName, sr.LastName, sr.fk_contact AS ContactID FROM supply_rep AS sr WHERE sr.id = ?";
pub const SQL_SUPPLY_REP_NUMBERS: &'static str = "SELECT c.SupplyRepID, c.Number FROM view_supply_rep_numbers AS c WHERE c.supplyRepID = ?";
pub const SQL_SUPPLY_REP_EMAIL: &'static str = "SELECT c.SupplyRepID, c.Email FROM view_supply_rep_email AS c WHERE c.supplyRepID = ?";

pub const SQL_INSERT_SUPPLIER: &'static str = "INSERT INTO supplier (name, active) VALUES (?, ?)";
pub const SQL_INSERT_ADDRESS: &'static str = "INSERT INTO address (address_line1, address_line2, address_town, address_county, address_postcode) VALUES (?, ?, ?, ?, ?)";
pub const SQL_INSERT_EMAILS: &'static str = "INSERT INTO emails (email) VALUES ";
pub const SQL_INSERT_NUMBERS: &'static str = "INSERT INTO phone_numbers (number) VALUES ";
pub const SQL_LINK_NEW_EMAILS: &'static str = "INSERT INTO contact_email (fk_email_addresses, fk_contact) SELECT id, (SELECT fk_contact FROM supplier WHERE id = (SELECT MAX(id) FROM supplier)) FROM emails WHERE email IN (";
pub const SQL_LINK_NEW_NUMBERS: &'static str = "INSERT INTO contact_phone (fk_phone_number, fk_contact) SELECT id, (SELECT fk_contact FROM supplier WHERE id = (SELECT MAX(id) FROM supplier)) FROM phone_numbers WHERE number IN (";
pub const SQL_INSERT_REP: &'static str = "INSERT INTO supply_rep (FirstName, LastName) VALUES (?, ?)";
pub const SQL_LINK_NEW_REP: &'static str = "UPDATE supplier SET fk_supply_rep = (SELECT MAX(id) FROM supply_rep) WHERE id = (SELECT MAX(id) FROM supplier)";
pub const SQL_PLACEHOLDER: &'static str = "?";
pub const SQL_CLOSE: &'static str = ")";
pub const SQL_LINK_EMAILS: &'static str = "INSERT INTO contact_email (fk_email_addresses, fk_contact) VALUES ";
pub const SQL_LINK_NUMBERS: &'static str = "INSERT INTO contact_phone (fk_phone_number, fk_contact) VALUES ";
pub const SQL_ONE_VALUE: &'static str = "(?)";
pub const SQL_TWO_VALUES: &'static str = "(?, ?)";
pub const SQL_SEPARATOR: &'static str = ", ";
pub const SQL_SET_ADDRESS: &'static str = "UPDATE supplier SET fk_address = ? WHERE id = ?";
pub const SQL_SET_LATEST_ADDRESS: &'static str = "UPDATE supplier SET fk_address = (SELECT MAX(id) FROM address) WHERE id = ?";
pub const SQL_SET_REP: &'static str = "UPDATE supplier SET fk_supply_rep = ? WHERE id = ?";
pub const SQL_SET_LATEST_REP: &'static str = "UPDATE supplier SET fk_supply_rep = (SELECT MAX(id) FROM supply_rep) WHERE id = ?";
pub const SQL_LATEST_SUPPLIER: &'static str = "(SELECT MAX(id) FROM supplier)";

/// A value bound to a `?` placeholder.
#[derive(Debug)]
pub enum SqlParam {
    Integer(i64),
    Unsigned(u64),
    Text(String),
    Null,
}

pub enum Param {
    Integer(i64),
    Unsigned(u64),
    Text(Seq<char>),
    Null,
}

impl View for SqlParam {
    type V = Param;

    open spec fn view(&self) -> Param {
        match self {
            SqlParam::Integer(i) => Param::Integer(*i),
            SqlParam::Unsigned(u) => Param::Unsigned(*u),
            SqlParam::Text(s) => Param::Text(s@),
            SqlParam::Null => Param::Null,
        }
    }
}

/// A statement's text with its parameters, in placeholder order. Values are
/// never written into the text.
#[derive(Debug)]
pub struct SqlStatement {
    pub text: String,
    pub params: Vec<SqlParam>,
}

impl SqlStatement {
    pub open spec fn model(&self) -> (Seq<char>, Seq<Param>) {
        (self.text@, self.params@.map_values(|p: SqlParam| p@))
    }
}

fn statement(text: &str, params: Vec<SqlParam>) -> (r: SqlStatement)
    ensures
        r.model() == (text@, params@.map_values(|p: SqlParam| p@)),
{
    SqlStatement { text: string_of(text), params }
}

fn by_id(text: &str, id: u64) -> (r: SqlStatement)
    ensures
        r.model() == (text@, seq![Param::Unsigned(id)]),
{
    let params = vec![SqlParam::Unsigned(id)];
    let r = statement(text, params);
    assert(r.model().1 =~= seq![Param::Unsigned(id)]);
    r
}

/// The statement that reads a descriptor's rows; `None` for descriptors
/// that read nothing.
pub open spec fn read_sql(q: Query) -> Option<(Seq<char>, Seq<Param>)> {
    match q {
        Query::GETSuppliers => Some((SQL_SUPPLIERS@, Seq::empty())),
        Query::GETSuppliersEmail => Some((SQL_SUPPLIERS_EMAIL@, Seq::empty())),
        Query::GETSuppliersNumbers => Some((SQL_SUPPLIERS_NUMBERS@, Seq::empty())),
        Query::GETSuppliersCategories => Some((SQL_SUPPLIERS_CATEGORIES@, Seq::empty())),
        Query::GETSupplierNameFromId(id) => Some((SQL_SUPPLIER_NAME@, seq![Param::Unsigned(id)])),
        Query::GETSupplierFromId(id) => Some((SQL_SUPPLIER@, seq![Param::Unsigned(id)])),
        Query::GETSupplierIdFromName(name) => Some((SQL_SUPPLIER_ID@, seq![Param::Text(name@)])),
        Query::GETSupplierEmailFromId(id) => Some((SQL_SUPPLIER_EMAIL@, seq![Param::Unsigned(id)])),
        Query::GETSupplierNumbersFromId(id) => Some((SQL_SUPPLIER_NUMBERS@, seq![Param::Unsigned(id)])),
        Query::GETSupplierAddressFromId(id) => Some((SQL_SUPPLIER_ADDRESS@, seq![Param::Unsigned(id)])),
        Query::GETSupplierCategoriesFromId(id) => Some((SQL_SUPPLIER_CATEGORIES@, seq![Param::Unsigned(id)])),
        Query::GETSupplierRepFromId(id) => Some((SQL_SUPPLIER_REP@, seq![Param::Unsigned(id)])),
        Query::GETSupplyRepFromId(id) => Some((SQL_SUPPLY_REP@, seq![Param::Unsigned(id)])),
        Query::GETSupplyRepPhoneNumbersFromId(id) => Some((SQL_SUPPLY_REP_NUMBERS@, seq![Param::Unsigned(id)])),
        Query::GETSupplyRepEmailFromId(id) => Some((SQL_SUPPLY_REP_EMAIL@, seq![Param::Unsigned(id)])),
        _ => None,
    }
}

/// Renders the statement that reads a descriptor's rows.
pub fn get_sql(query: &Query) -> (r: Option<SqlStatement>)
    ensures
        match read_sql(*query) {
            Some(m) => r matches Some(s) && s.model() == m,
            None => r is None,
        },
{
    let empty: Vec<SqlParam> = Vec::new();
    assert(empty@.map_values(|p: SqlParam| p@) =~= Seq::<Param>::empty());
    match query {
        Query::GETSuppliers => Some(statement(SQL_SUPPLIERS, empty)),
        Query::GETSuppliersEmail => Some(statement(SQL_SUPPLIERS_EMAIL, empty)),
        Query::GETSuppliersNumbers => Some(statement(SQL_SUPPLIERS_NUMBERS, empty)),
        Query::GETSuppliersCategories => Some(statement(SQL_SUPPLIERS_CATEGORIES, empty)),
        Query::GETSupplierNameFromId(id) => Some(by_id(SQL_SUPPLIER_NAME, *id)),
        Query::GETSupplierFromId(id) => Some(by_id(SQL_SUPPLIER, *id)),
        Query::GETSupplierIdFromName(name) => {
            let params = vec![SqlParam::Text(name.clone())];
            let r = statement(SQL_SUPPLIER_ID, params);
            assert(r.model().1 =~= seq![Param::Text(name@)]);
            Some(r)
        },
        Query::GETSupplierEmailFromId(id) => Some(by_id(SQL_SUPPLIER_EMAIL, *id)),
        Query::GETSupplierNumbersFromId(id) => Some(by_id(SQL_SUPPLIER_NUMBERS, *id)),
        Query::GETSupplierAddressFromId(id) => Some(by_id(SQL_SUPPLIER_ADDRESS, *id)),
        Query::GETSupplierCategoriesFromId(id) => Some(by_id(SQL_SUPPLIER_CATEGORIES, *id)),
        Query::GETSupplierRepFromId(id) => Some(by_id(SQL_SUPPLIER_REP, *id)),
        Query::GETSupplyRepFromId(id) => Some(by_id(SQL_SUPPLY_REP, *id)),
        Query::GETSupplyRepPhoneNumbersFromId(id) => Some(by_id(SQL_SUPPLY_REP_NUMBERS, *id)),
        Query::GETSupplyRepEmailFromId(id) => Some(by_id(SQL_SUPPLY_REP_EMAIL, *id)),
        _ => None,
    }
}

/// A field map as keys and cells.
pub open spec fn field_map(values: Seq<(String, Value)>) -> Seq<(Seq<char>, Cell)> {
    values.map_values(|e: (String, Value)| (e.0@, e.1@))
}

/// The value stored under `key` in a field map, if any.
pub open spec fn field_value(values: Seq<(Seq<char>, Cell)>, key: Seq<char>) -> Option<Cell>
    decreases values.len(),
{
    if values.len() == 0 {
        None
    } else if values[0].0 == key {
        Some(values[0].1)
    } else {
        field_value(values.drop_first(), key)
    }
}

/// Looks a key up in a field map.
pub fn field_of<'a>(values: &'a Vec<(String, Value)>, key: &str) -> (r: Option<&'a Value>)
    ensures
        match field_value(field_map(values@), key@) {
            Some(v) => r matches Some(x) && x@ == v,
            None => r is None,
        },
{
    let ghost fm = field_map(values@);
    let mut i: usize = 0;
    assert(fm.subrange(0, fm.len() as int) =~= fm);
    while i < values.len()
        invariant
            i <= values@.len(),
            fm == field_map(values@),
            fm.len() == values@.len(),
            field_value(fm, key@) == field_value(fm.subrange(i as int, fm.len() as int), key@),
        decreases values@.len() - i,
    {
        let ghost rest = fm.subrange(i as int, fm.len() as int);
        assert(rest.drop_first() =~= fm.subrange(i + 1, fm.len() as int));
        assert(rest[0] == (values@[i as int].0@, values@[i as int].1@));
        if same_text(values[i].0.as_str(), key) {
            return Some(&values[i].1);
        }
        i += 1;
    }
    assert(fm.subrange(i as int, fm.len() as int) =~= Seq::<(Seq<char>, Cell)>::empty());
    None
}

/// A text field as a parameter: present text binds as text, anything else
/// as SQL `NULL`.
pub open spec fn text_or_null(v: Option<Cell>) -> Param {
    match v {
        Some(Cell::String(s)) => Param::Text(s),
        _ => Param::Null,
    }
}

fn text_param(v: Option<&Value>) -> (r: SqlParam)
    ensures
        r@ == text_or_null(
            match v {
                Some(x) => Some(x@),
                None => None,
            },
        ),
{
    match v {
        Some(Value::String(s)) => SqlParam::Text(s.clone()),
        _ => SqlParam::Null,
    }
}

/// `(text, n)` repeated: the text followed by `n` groups joined by `", "`.
pub open spec fn value_groups(text: Seq<char>, group: Seq<char>, n: nat) -> Seq<char>
    decreases n,
{
    if n == 0 {
        text
    } else if n == 1 {
        text + group
    } else {
        value_groups(text, group, (n - 1) as nat) + SQL_SEPARATOR@ + group
    }
}

/// The texts of a field map's text values, in order.
pub open spec fn texts(values: Seq<(Seq<char>, Cell)>) -> Seq<Param>
    decreases values.len(),
{
    if values.len() == 0 {
        Seq::empty()
    } else {
        match values.last().1 {
            Cell::String(s) => texts(values.drop_last()).push(Param::Text(s)),
            _ => texts(values.drop_last()),
        }
    }
}

/// The insert statement of a create descriptor, built from the field map
/// that the body gave. `None` when a required field is missing or of the
/// wrong type, or when the descriptor creates nothing.
pub open spec fn write_sql(q: Query, values: Seq<(Seq<char>, Cell)>) -> Option<(Seq<char>, Seq<Param>)> {
    match q {
        Query::POSTSupplier(_) => match (field_value(values, crate::config::NAME@), field_value(values, crate::config::ACTIVE@)) {
            (Some(Cell::String(name)), Some(Cell::Boolean(active))) => Some((
                SQL_INSERT_SUPPLIER@,
                seq![Param::Text(name), Param::Integer(if active { 1 } else { 0 })],
            )),
            _ => None,
        },
        Query::POSTAddress(_) => {
            let line1 = field_value(values, crate::config::ADDRESS_LINE1@);
            let town = field_value(values, crate::config::ADDRESS_TOWN@);
            let postcode = field_value(values, crate::config::ADDRESS_POSTCODE@);
            if line1 matches Some(Cell::String(_)) && town matches Some(Cell::String(_))
                && postcode matches Some(Cell::String(_)) {
                Some((
                    SQL_INSERT_ADDRESS@,
                    seq![
                        text_or_null(line1),
                        text_or_null(field_value(values, crate::config::ADDRESS_LINE2@)),
                        text_or_null(town),
                        text_or_null(field_value(values, crate::config::ADDRESS_COUNCIL@)),
                        text_or_null(postcode),
                    ],
                ))
            } else {
                None
            }
        },
        Query::POSTContactEmails(_) => if texts(values).len() > 0 {
            Some((value_groups(SQL_INSERT_EMAILS@, SQL_ONE_VALUE@, texts(values).len()), texts(values)))
        } else {
            None
        },
        Query::POSTContactPhoneNumbers(_) => if texts(values).len() > 0 {
            Some((value_groups(SQL_INSERT_NUMBERS@, SQL_ONE_VALUE@, texts(values).len()), texts(values)))
        } else {
            None
        },
        _ => None,
    }
}

fn insert_many(head: &str, values: &Vec<(String, Value)>) -> (r: Option<SqlStatement>)
    ensures
        if texts(field_map(values@)).len() > 0 {
            r matches Some(s) && s.model() == (
                value_groups(head@, SQL_ONE_VALUE@, texts(field_map(values@)).len()),
                texts(field_map(values@)),
            )
        } else {
            r is None
        },
{
    let mut text = string_of(head);
    let mut params: Vec<SqlParam> = Vec::new();
    let mut i: usize = 0;
    let ghost fm = field_map(values@);
    assert(fm.subrange(0, 0) =~= Seq::<(Seq<char>, Cell)>::empty());
    while i < values.len()
        invariant
            i <= values@.len(),
            fm == field_map(values@),
            fm.len() == values@.len(),
            params@.map_values(|p: SqlParam| p@) == texts(fm.subrange(0, i as int)),
            text@ == value_groups(head@, SQL_ONE_VALUE@, params@.len() as nat),
        decreases values@.len() - i,
    {
        let ghost sub = fm.subrange(0, i + 1);
        assert(sub.drop_last() =~= fm.subrange(0, i as int));
        assert(sub.last() == (values@[i as int].0@, values@[i as int].1@));
        if let Value::String(s) = &values[i].1 {
            let ghost before = params@;
            if params.len() > 0 {
                text.append(SQL_SEPARATOR);
            }
            text.append(SQL_ONE_VALUE);
            params.push(SqlParam::Text(s.clone()));
            assert(params@.map_values(|p: SqlParam| p@) =~= before.map_values(|p: SqlParam| p@).push(Param::Text(s@)));
            proof {
                if before.len() == 0 {
                    assert(text@ =~= value_groups(head@, SQL_ONE_VALUE@, 1));
                } else {
                    assert(text@ =~= value_groups(head@, SQL_ONE_VALUE@, params@.len() as nat));
                }
            }
        }
        i += 1;
    }
    assert(fm.subrange(0, i as int) =~= fm);
    if params.len() == 0 {
        return None;
    }
    Some(SqlStatement { text, params })
}

/// Renders the insert statement of a create descriptor.
pub fn post_sql(query: &Query, values: &Vec<(String, Value)>) -> (r: Option<SqlStatement>)
    ensures
        match write_sql(*query, field_map(values@)) {
            Some(m) => r matches Some(s) && s.model() == m,
            None => r is None,
        },
{
    match query {
        Query::POSTSupplier(_) => {
            let name = field_of(values, crate::config::NAME);
            let active = field_of(values, crate::config::ACTIVE);
            match (name, active) {
                (Some(Value::String(n)), Some(Value::Boolean(a))) => {
                    let flag: i64 = if *a {
                        1
                    } else {
                        0
                    };
                    let params = vec![SqlParam::Text(n.clone()), SqlParam::Integer(flag)];
                    let r = statement(SQL_INSERT_SUPPLIER, params);
                    assert(r.model().1 =~= seq![Param::Text(n@), Param::Integer(flag)]);
                    Some(r)
                },
                _ => None,
            }
        },
        Query::POSTAddress(_) => {
            let line1 = field_of(values, crate::config::ADDRESS_LINE1);
            let town = field_of(values, crate::config::ADDRESS_TOWN);
            let postcode = field_of(values, crate::config::ADDRESS_POSTCODE);
            let required = match (line1, town, postcode) {
                (Some(Value::String(_)), Some(Value::String(_)), Some(Value::String(_))) => true,
                _ => false,
            };
            if !required {
                return None;
            }
            let line2 = field_of(values, crate::config::ADDRESS_LINE2);
            let council = field_of(values, crate::config::ADDRESS_COUNCIL);
            let params = vec![
                text_param(line1),
                text_param(line2),
                text_param(town),
                text_param(council),
                text_param(postcode),
            ];
            let r = statement(SQL_INSERT_ADDRESS, params);
            let ghost expected = write_sql(*query, field_map(values@))->0;
            assert(r.model().1 =~= expected.1);
            Some(r)
        },
        Query::POSTContactEmails(_) => insert_many(SQL_INSERT_EMAILS, values),
        Query::POSTContactPhoneNumbers(_) => insert_many(SQL_INSERT_NUMBERS, values),
        _ => None,
    }
}

/// Where a new foreign key comes from: a known id, or the newest row of the
/// referenced table.
pub enum UpdateOnId {
    Id(i64),
    Latest,
}

fn set_key(known: &str, latest: &str, target: UpdateOnId, supplier_id: i64) -> (r: SqlStatement)
    ensures
        r.model() == match target {
            UpdateOnId::Id(x) => (known@, seq![Param::Integer(x), Param::Integer(supplier_id)]),
            UpdateOnId::Latest => (latest@, seq![Param::Integer(supplier_id)]),
        },
{
    match target {
        UpdateOnId::Id(x) => {
            let r = statement(known, vec![SqlParam::Integer(x), SqlParam::Integer(supplier_id)]);
            assert(r.model().1 =~= seq![Param::Integer(x), Param::Integer(supplier_id)]);
            r
        },
        UpdateOnId::Latest => {
            let r = statement(latest, vec![SqlParam::Integer(supplier_id)]);
            assert(r.model().1 =~= seq![Param::Integer(supplier_id)]);
            r
        },
    }
}

/// The statement that points a supplier at its address.
pub fn update_supplier_address_id(supplier_id: i64, address_id: UpdateOnId) -> (r: SqlStatement)
    ensures
        r.model() == match address_id {
            UpdateOnId::Id(x) => (SQL_SET_ADDRESS@, seq![Param::Integer(x), Param::Integer(supplier_id)]),
            UpdateOnId::Latest => (SQL_SET_LATEST_ADDRESS@, seq![Param::Integer(supplier_id)]),
        },
{
    set_key(SQL_SET_ADDRESS, SQL_SET_LATEST_ADDRESS, address_id, supplier_id)
}

/// The statement that points a supplier at its representative.
pub fn update_supplier_rep_id(supplier_id: i64, rep_id: UpdateOnId) -> (r: SqlStatement)
    ensures
        r.model() == match rep_id {
            UpdateOnId::Id(x) => (SQL_SET_REP@, seq![Param::Integer(x), Param::Integer(supplier_id)]),
            UpdateOnId::Latest => (SQL_SET_LATEST_REP@, seq![Param::Integer(supplier_id)]),
        },
{
    set_key(SQL_SET_REP, SQL_SET_LATEST_REP, rep_id, supplier_id)
}

/// The parameters of a link insert: each id paired with the contact id.
pub open spec fn link_params(ids: Seq<i64>, contact_id: i64) -> Seq<Param>
    decreases ids.len(),
{
    if ids.len() == 0 {
        Seq::empty()
    } else {
        link_params(ids.drop_last(), contact_id) + seq![Param::Integer(ids.last()), Param::Integer(contact_id)]
    }
}

fn link(head: &str, ids: &Vec<i64>, contact_id: i64) -> (r: Option<SqlStatement>)
    ensures
        if ids@.len() > 0 {
            r matches Some(s) && s.model() == (value_groups(head@, SQL_TWO_VALUES@, ids@.len()), link_params(ids@, contact_id))
        } else {
            r is None
        },
{
    if ids.len() == 0 {
        return None;
    }
    let mut text = string_of(head);
    let mut params: Vec<SqlParam> = Vec::new();
    let mut i: usize = 0;
    assert(ids@.subrange(0, 0) =~= Seq::<i64>::empty());
    while i < ids.len()
        invariant
            i <= ids@.len(),
            params@.map_values(|p: SqlParam| p@) == link_params(ids@.subrange(0, i as int), contact_id),
            text@ == value_groups(head@, SQL_TWO_VALUES@, i as nat),
        decreases ids@.len() - i,
    {
        let ghost sub = ids@.subrange(0, i + 1);
        assert(sub.drop_last() =~= ids@.subrange(0, i as int));
        let ghost before = params@;
        if i > 0 {
            text.append(SQL_SEPARATOR);
        }
        text.append(SQL_TWO_VALUES);
        params.push(SqlParam::Integer(ids[i]));
        params.push(SqlParam::Integer(contact_id));
        assert(params@.map_values(|p: SqlParam| p@) =~= before.map_values(|p: SqlParam| p@) + seq![
            Param::Integer(ids@[i as int]),
            Param::Integer(contact_id),
        ]);
        i += 1;
        assert(text@ =~= value_groups(head@, SQL_TWO_VALUES@, i as nat));
    }
    assert(ids@.subrange(0, i as int) =~= ids@);
    Some(SqlStatement { text, params })
}

/// The statement that links stored email addresses to a contact; `None`
/// when there is nothing to link.
pub fn insert_email_contact(email_ids: &Vec<i64>, contact_id: i64) -> (r: Option<SqlStatement>)
    ensures
        if email_ids@.len() > 0 {
            r matches Some(s) && s.model() == (
                value_groups(SQL_LINK_EMAILS@, SQL_TWO_VALUES@, email_ids@.len()),
                link_params(email_ids@, contact_id),
            )
        } else {
            r is None
        },
{
    link(SQL_LINK_EMAILS, email_ids, contact_id)
}

/// The statement that links stored phone numbers to a contact; `None` when
/// there is nothing to link.
pub fn insert_phone_contact(number_ids: &Vec<i64>, contact_id: i64) -> (r: Option<SqlStatement>)
    ensures
        if number_ids@.len() > 0 {
            r matches Some(s) && s.model() == (
                value_groups(SQL_LINK_NUMBERS@, SQL_TWO_VALUES@, number_ids@.len()),
                link_params(number_ids@, contact_id),
            )
        } else {
            r is None
        },
{
    link(SQL_LINK_NUMBERS, number_ids, contact_id)
}

/// Builds `head` followed by `n` copies of `group` joined by `", "`.
fn groups(head: &str, group: &str, n: usize) -> (r: String)
    ensures
        r@ == value_groups(head@, group@, n as nat),
{
    let mut text = string_of(head);
    let mut k: usize = 0;
    while k < n
        invariant
            k <= n,
            text@ == value_groups(head@, group@, k as nat),
        decreases n - k,
    {
        if k > 0 {
            text.append(SQL_SEPARATOR);
        }
        text.append(group);
        k += 1;
        assert(text@ =~= value_groups(head@, group@, k as nat));
    }
    text
}

/// The texts of a contact list in a request body: one string, or a
/// non-empty array of strings.
pub open spec fn contact_texts(j: JsonModel) -> Option<Seq<Seq<char>>> {
    match j {
        JsonModel::Str(s) => Some(seq![s]),
        JsonModel::Array(items) => if items.len() > 0 && (forall|i: int| 0 <= i < items.len() ==> #[trigger] items[i] is Str) {
            Some(items.map_values(|x: JsonModel| x->Str_0))
        } else {
            None
        },
        _ => None,
    }
}

pub open spec fn text_params(t: Seq<Seq<char>>) -> Seq<Param> {
    t.map_values(|x: Seq<char>| Param::Text(x))
}

/// The statements of a contact list: the insert of its values, and the link
/// of the stored values to the newest supplier's contact.
pub open spec fn contact_plan(j: JsonModel, insert_head: Seq<char>, link_head: Seq<char>) -> Option<
    ((Seq<char>, Seq<Param>), (Seq<char>, Seq<Param>)),
> {
    match contact_texts(j) {
        Some(t) => Some(
            (
                (value_groups(insert_head, SQL_ONE_VALUE@, t.len()), text_params(t)),
                (value_groups(link_head, SQL_PLACEHOLDER@, t.len()) + SQL_CLOSE@, text_params(t)),
            ),
        ),
        None => None,
    }
}

fn text_list(texts: &Vec<String>) -> (r: Vec<SqlParam>)
    ensures
        r@.map_values(|p: SqlParam| p@) == text_params(texts@.map_values(|s: String| s@)),
{
    let mut r: Vec<SqlParam> = Vec::new();
    let mut i: usize = 0;
    while i < texts.len()
        invariant
            i <= texts@.len(),
            r@.map_values(|p: SqlParam| p@) == text_params(texts@.map_values(|s: String| s@)).subrange(0, i as int),
        decreases texts@.len() - i,
    {
        let ghost before = r@.map_values(|p: SqlParam| p@);
        let ghost want = text_params(texts@.map_values(|s: String| s@));
        assert(want[i as int] == Param::Text(texts@[i as int]@));
        r.push(SqlParam::Text(texts[i].clone()));
        assert(r@.map_values(|p: SqlParam| p@) =~= before.push(Param::Text(texts@[i as int]@)));
        i += 1;
        assert(r@.map_values(|p: SqlParam| p@) =~= text_params(texts@.map_values(|s: String| s@)).subrange(0, i as int));
    }
    assert(text_params(texts@.map_values(|s: String| s@)).subrange(0, i as int) =~= text_params(texts@.map_values(|s: String| s@)));
    r
}

/// Builds the insert and link statements of a contact list found in a
/// request body; anything but a string or a non-empty array of strings is a
/// `SubmissionError`.
pub fn contact_statements(section: &Json, insert_head: &str, link_head: &str) -> (r: Result<(SqlStatement, SqlStatement), DatabaseError>)
    ensures
        match contact_plan(section@, insert_head@, link_head@) {
            Some((i, l)) => r matches Ok((a, b)) && a.model() == i && b.model() == l,
            None => r matches Err(e) && e is SubmissionError,
        },
{
    let mut texts: Vec<String> = Vec::new();
    match section {
        Json::Str(s) => {
            texts.push(s.clone());
            assert(texts@.map_values(|s: String| s@) =~= contact_texts(section@)->0);
        },
        Json::Array(items) => {
            proof {
                lemma_items_model(items@);
            }
            if items.len() == 0 {
                return Err(DatabaseError::SubmissionError(string_of("an empty contact list")));
            }
            let ghost model = items_model(items@);
            assert(section@ == JsonModel::Array(model));
            let mut i: usize = 0;
            while i < items.len()
                invariant
                    i <= items@.len(),
                    model == items_model(items@),
                    section@ == JsonModel::Array(model),
                    model.len() == items@.len(),
                    forall|j: int| 0 <= j < items@.len() ==> #[trigger] model[j] == items@[j]@,
                    forall|j: int| 0 <= j < i ==> #[trigger] model[j] is Str,
                    texts@.map_values(|s: String| s@) == model.subrange(0, i as int).map_values(|x: JsonModel| x->Str_0),
                decreases items@.len() - i,
            {
                assert(model[i as int] == items@[i as int]@);
                let ghost before = texts@.map_values(|s: String| s@);
                match &items[i] {
                    Json::Str(s) => {
                        assert(items@[i as int]@ == JsonModel::Str(s@));
                        texts.push(s.clone());
                        assert(texts@.map_values(|s: String| s@) =~= before.push(s@));
                    },
                    _ => {
                        assert(!(model[i as int] is Str));
                        assert(!(forall|j: int| 0 <= j < model.len() ==> #[trigger] model[j] is Str));
                        return Err(DatabaseError::SubmissionError(string_of("a contact entry is not a string")));
                    },
                }
                i += 1;
                assert(texts@.map_values(|s: String| s@) =~= model.subrange(0, i as int).map_values(|x: JsonModel| x->Str_0));
            }
            assert(model.subrange(0, i as int) =~= model);
        },
        _ => {
            return Err(DatabaseError::SubmissionError(string_of("a contact list must be text")));
        },
    }
    let n = texts.len();
    let insert = SqlStatement { text: groups(insert_head, SQL_ONE_VALUE, n), params: text_list(&texts) };
    let mut link_text = groups(link_head, SQL_PLACEHOLDER, n);
    link_text.append(SQL_CLOSE);
    let link = SqlStatement { text: link_text, params: text_list(&texts) };
    Ok((insert, link))
}

/// The insert of a representative from its field map.
pub open spec fn rep_sql(values: Seq<(Seq<char>, Cell)>) -> Option<(Seq<char>, Seq<Param>)> {
    match (field_value(values, crate::config::FIRST_NAME@), field_value(values, crate::config::LAST_NAME@)) {
        (Some(Cell::String(f)), Some(Cell::String(l))) => Some((SQL_INSERT_REP@, seq![Param::Text(f), Param::Text(l)])),
        _ => None,
    }
}

/// Renders the insert of a representative.
pub fn rep_insert(values: &Vec<(String, Value)>) -> (r: Option<SqlStatement>)
    ensures
        match rep_sql(field_map(values@)) {
            Some(m) => r matches Some(s) && s.model() == m,
            None => r is None,
        },
{
    match (field_of(values, crate::config::FIRST_NAME), field_of(values, crate::config::LAST_NAME)) {
        (Some(Value::String(f)), Some(Value::String(l))) => {
            let r = statement(SQL_INSERT_REP, vec![SqlParam::Text(f.clone()), SqlParam::Text(l.clone())]);
            assert(r.model().1 =~= seq![Param::Text(f@), Param::Text(l@)]);
            Some(r)
        },
        _ => None,
    }
}

} // verus!
