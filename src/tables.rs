use vstd::prelude::*;
use crate::config::{ACTIVE, ADDRESS_COUNCIL, ADDRESS_ID, ADDRESS_LINE1, ADDRESS_LINE2, ADDRESS_POSTCODE, ADDRESS_TOWN, CATEGORY_TYPE, CONTACT_ID, EMAIL, FIRST_NAME, ID, LAST_NAME, NAME, NUMBER, REP_ID, TITLE};
use crate::data_structs::{DBTableStruct, DbFieldStruct, Value};
use crate::query_types::Query;

verus! {

/// The type a column is read as.
pub enum Tag {
    Boolean,
    Binary,
    Float,
    Integer,
    Text,
    Null,
}

pub open spec fn tag(v: Value) -> Tag {
    match v {
        Value::Boolean(_) => Tag::Boolean,
        Value::Binary(_) => Tag::Binary,
        Value::Float(_) => Tag::Float,
        Value::Integer(_) => Tag::Integer,
        Value::String(_) => Tag::Text,
        Value::Null => Tag::Null,
    }
}

/// A column layout as (position, key, type, not-null) entries.
pub open spec fn layout(s: DBTableStruct) -> Seq<(nat, Seq<char>, Tag, bool)> {
    s.fields@.map_values(|f: DbFieldStruct| (f.index as nat, f.name@, tag(f.field_type), f.not_null))
}

pub open spec fn supplier_layout() -> Seq<(nat, Seq<char>, Tag, bool)> {
    seq![
        (0, ID@, Tag::Integer, true),
        (1, NAME@, Tag::Text, true),
        (2, ACTIVE@, Tag::Integer, true),
        (3, ADDRESS_ID@, Tag::Integer, false),
        (4, CONTACT_ID@, Tag::Integer, true),
        (5, REP_ID@, Tag::Integer, false),
    ]
}

pub open spec fn email_layout() -> Seq<(nat, Seq<char>, Tag, bool)> {
    seq![(0, ID@, Tag::Integer, true), (1, EMAIL@, Tag::Text, true)]
}

pub open spec fn numbers_layout() -> Seq<(nat, Seq<char>, Tag, bool)> {
    seq![(0, ID@, Tag::Integer, true), (1, NUMBER@, Tag::Text, true)]
}

pub open spec fn id_layout() -> Seq<(nat, Seq<char>, Tag, bool)> {
    seq![(0, ID@, Tag::Integer, true)]
}

pub open spec fn supplier_name_layout() -> Seq<(nat, Seq<char>, Tag, bool)> {
    seq![(0, NAME@, Tag::Text, true)]
}

pub open spec fn address_layout() -> Seq<(nat, Seq<char>, Tag, bool)> {
    seq![
        (0, ID@, Tag::Integer, true),
        (1, ADDRESS_LINE1@, Tag::Text, true),
        (2, ADDRESS_LINE2@, Tag::Text, false),
        (3, ADDRESS_TOWN@, Tag::Text, true),
        (4, ADDRESS_COUNCIL@, Tag::Text, false),
        (5, ADDRESS_POSTCODE@, Tag::Text, true),
    ]
}

pub open spec fn rep_layout() -> Seq<(nat, Seq<char>, Tag, bool)> {
    seq![
        (0, ID@, Tag::Integer, true),
        (1, TITLE@, Tag::Text, true),
        (2, FIRST_NAME@, Tag::Text, true),
        (3, LAST_NAME@, Tag::Text, true),
        (4, CONTACT_ID@, Tag::Integer, true),
    ]
}

pub open spec fn supply_rep_layout() -> Seq<(nat, Seq<char>, Tag, bool)> {
    seq![
        (0, TITLE@, Tag::Text, true),
        (1, FIRST_NAME@, Tag::Text, true),
        (2, LAST_NAME@, Tag::Text, true),
        (3, CONTACT_ID@, Tag::Integer, true),
    ]
}

pub open spec fn categories_layout() -> Seq<(nat, Seq<char>, Tag, bool)> {
    seq![(0, ID@, Tag::Integer, true), (1, CATEGORY_TYPE@, Tag::Text, true)]
}

/// The layouts of the create descriptors: the columns a request body must
/// or may supply; generated keys are left out.
pub open spec fn new_supplier_layout() -> Seq<(nat, Seq<char>, Tag, bool)> {
    seq![(1, NAME@, Tag::Text, true), (2, ACTIVE@, Tag::Boolean, true)]
}

pub open spec fn new_address_layout() -> Seq<(nat, Seq<char>, Tag, bool)> {
    address_layout().drop_first()
}

pub open spec fn new_email_layout() -> Seq<(nat, Seq<char>, Tag, bool)> {
    email_layout().drop_first()
}

pub open spec fn new_number_layout() -> Seq<(nat, Seq<char>, Tag, bool)> {
    numbers_layout().drop_first()
}

/// The fields a new representative must supply.
pub open spec fn new_rep_layout() -> Seq<(nat, Seq<char>, Tag, bool)> {
    seq![(0, FIRST_NAME@, Tag::Text, true), (1, LAST_NAME@, Tag::Text, true)]
}

/// The layout of a new representative.
pub fn new_rep_table() -> (r: DBTableStruct)
    ensures
        layout(r) == new_rep_layout(),
{
    let entries = vec![(0usize, FIRST_NAME, text(), true), (1usize, LAST_NAME, text(), true)];
    let r = layout_of(&entries);
    assert(layout(r) =~= new_rep_layout());
    r
}

/// Builds a layout from its entries, in order.
fn layout_of(entries: &Vec<(usize, &'static str, Value, bool)>) -> (r: DBTableStruct)
    ensures
        layout(r) == entries@.map_values(|e: (usize, &'static str, Value, bool)| (e.0 as nat, e.1@, tag(e.2), e.3)),
{
    let mut r = DBTableStruct::new();
    let mut i: usize = 0;
    while i < entries.len()
        invariant
            i <= entries@.len(),
            layout(r) == entries@.subrange(0, i as int).map_values(
                |e: (usize, &'static str, Value, bool)| (e.0 as nat, e.1@, tag(e.2), e.3),
            ),
        decreases entries@.len() - i,
    {
        let e = &entries[i];
        let t = match &e.2 {
            Value::Boolean(_) => Value::Boolean(false),
            Value::Binary(_) => Value::Binary(Vec::new()),
            Value::Float(_) => Value::Float(0),
            Value::Integer(_) => Value::Integer(0),
            Value::String(_) => Value::String(String::new()),
            Value::Null => Value::Null,
        };
        let ghost before = layout(r);
        r.fields.push(DbFieldStruct::new(e.0, e.1, t, e.3));
        assert(layout(r) =~= before.push((e.0 as nat, e.1@, tag(e.2), e.3)));
        i += 1;
        assert(entries@.subrange(0, i as int).drop_last() =~= entries@.subrange(0, i - 1));
        assert(layout(r) =~= entries@.subrange(0, i as int).map_values(
            |e: (usize, &'static str, Value, bool)| (e.0 as nat, e.1@, tag(e.2), e.3),
        ));
    }
    assert(entries@.subrange(0, i as int) =~= entries@);
    r
}

fn text() -> (r: Value)
    ensures
        tag(r) == Tag::Text,
{
    Value::String(String::new())
}

fn integer() -> (r: Value)
    ensures
        tag(r) == Tag::Integer,
{
    Value::Integer(0)
}

pub fn supplier_table() -> (r: DBTableStruct)
    ensures
        layout(r) == supplier_layout(),
{
    let entries = vec![
        (0usize, ID, integer(), true),
        (1usize, NAME, text(), true),
        (2usize, ACTIVE, integer(), true),
        (3usize, ADDRESS_ID, integer(), false),
        (4usize, CONTACT_ID, integer(), true),
        (5usize, REP_ID, integer(), false),
    ];
    let r = layout_of(&entries);
    assert(layout(r) =~= supplier_layout());
    r
}

pub fn email_table() -> (r: DBTableStruct)
    ensures
        layout(r) == email_layout(),
{
    let entries = vec![(0usize, ID, integer(), true), (1usize, EMAIL, text(), true)];
    let r = layout_of(&entries);
    assert(layout(r) =~= email_layout());
    r
}

pub fn numbers_table() -> (r: DBTableStruct)
    ensures
        layout(r) == numbers_layout(),
{
    let entries = vec![(0usize, ID, integer(), true), (1usize, NUMBER, text(), true)];
    let r = layout_of(&entries);
    assert(layout(r) =~= numbers_layout());
    r
}

pub fn id_table() -> (r: DBTableStruct)
    ensures
        layout(r) == id_layout(),
{
    let entries = vec![(0usize, ID, integer(), true)];
    let r = layout_of(&entries);
    assert(layout(r) =~= id_layout());
    r
}

pub fn supplier_name_table() -> (r: DBTableStruct)
    ensures
        layout(r) == supplier_name_layout(),
{
    let entries = vec![(0usize, NAME, text(), true)];
    let r = layout_of(&entries);
    assert(layout(r) =~= supplier_name_layout());
    r
}

pub fn address_table() -> (r: DBTableStruct)
    ensures
        layout(r) == address_layout(),
{
    let entries = vec![
        (0usize, ID, integer(), true),
        (1usize, ADDRESS_LINE1, text(), true),
        (2usize, ADDRESS_LINE2, text(), false),
        (3usize, ADDRESS_TOWN, text(), true),
        (4usize, ADDRESS_COUNCIL, text(), false),
        (5usize, ADDRESS_POSTCODE, text(), true),
    ];
    let r = layout_of(&entries);
    assert(layout(r) =~= address_layout());
    r
}

pub fn rep_table() -> (r: DBTableStruct)
    ensures
        layout(r) == rep_layout(),
{
    let entries = vec![
        (0usize, ID, integer(), true),
        (1usize, TITLE, text(), true),
        (2usize, FIRST_NAME, text(), true),
        (3usize, LAST_NAME, text(), true),
        (4usize, CONTACT_ID, integer(), true),
    ];
    let r = layout_of(&entries);
    assert(layout(r) =~= rep_layout());
    r
}

fn supply_rep_table() -> (r: DBTableStruct)
    ensures
        layout(r) == supply_rep_layout(),
{
    let entries = vec![
        (0usize, TITLE, text(), true),
        (1usize, FIRST_NAME, text(), true),
        (2usize, LAST_NAME, text(), true),
        (3usize, CONTACT_ID, integer(), true),
    ];
    let r = layout_of(&entries);
    assert(layout(r) =~= supply_rep_layout());
    r
}

pub fn categories_table() -> (r: DBTableStruct)
    ensures
        layout(r) == categories_layout(),
{
    let entries = vec![(0usize, ID, integer(), true), (1usize, CATEGORY_TYPE, text(), true)];
    let r = layout_of(&entries);
    assert(layout(r) =~= categories_layout());
    r
}

/// The layout registered for a read descriptor; descriptors without one get
/// an empty layout.
pub open spec fn read_layout(q: Query) -> Seq<(nat, Seq<char>, Tag, bool)> {
    match q {
        Query::GETSuppliers | Query::GETSupplierFromId(_) => supplier_layout(),
        Query::GETSuppliersEmail | Query::GETSupplierEmailFromId(_) | Query::GETSupplyRepEmailFromId(_) => email_layout(),
        Query::GETSuppliersNumbers | Query::GETSupplierNumbersFromId(_) | Query::GETSupplyRepPhoneNumbersFromId(_) => numbers_layout(),
        Query::GETSupplierIdFromName(_) => id_layout(),
        Query::GETSupplierNameFromId(_) => supplier_name_layout(),
        Query::GETSupplierAddressFromId(_) => address_layout(),
        Query::GETSupplierRepFromId(_) => rep_layout(),
        Query::GETSupplyRepFromId(_) => supply_rep_layout(),
        Query::GETSuppliersCategories | Query::GETSupplierCategoriesFromId(_) => categories_layout(),
        _ => Seq::empty(),
    }
}

/// The layout registered for a create descriptor; other descriptors get an
/// empty layout.
pub open spec fn write_layout(q: Query) -> Seq<(nat, Seq<char>, Tag, bool)> {
    match q {
        Query::POSTSupplier(_) => new_supplier_layout(),
        Query::POSTAddress(_) => new_address_layout(),
        Query::POSTContactEmails(_) => new_email_layout(),
        Query::POSTContactPhoneNumbers(_) => new_number_layout(),
        _ => Seq::empty(),
    }
}

/// Looks up the layout of a read descriptor.
pub fn get_tables(for_query: &Query) -> (r: DBTableStruct)
    ensures
        layout(r) == read_layout(*for_query),
{
    match for_query {
        Query::GETSuppliers | Query::GETSupplierFromId(_) => supplier_table(),
        Query::GETSuppliersEmail | Query::GETSupplierEmailFromId(_) | Query::GETSupplyRepEmailFromId(_) => email_table(),
        Query::GETSuppliersNumbers | Query::GETSupplierNumbersFromId(_) | Query::GETSupplyRepPhoneNumbersFromId(_) => numbers_table(),
        Query::GETSupplierIdFromName(_) => id_table(),
        Query::GETSupplierNameFromId(_) => supplier_name_table(),
        Query::GETSupplierAddressFromId(_) => address_table(),
        Query::GETSupplierRepFromId(_) => rep_table(),
        Query::GETSupplyRepFromId(_) => supply_rep_table(),
        Query::GETSuppliersCategories | Query::GETSupplierCategoriesFromId(_) => categories_table(),
        _ => {
            let r = DBTableStruct::new();
            assert(layout(r) =~= Seq::empty());
            r
        },
    }
}

/// Looks up the layout of a create descriptor.
pub fn post_tables(for_query: &Query) -> (r: DBTableStruct)
    ensures
        layout(r) == write_layout(*for_query),
{
    match for_query {
        Query::POSTSupplier(_) => {
            let entries = vec![(1usize, NAME, text(), true), (2usize, ACTIVE, Value::Boolean(false), true)];
            let r = layout_of(&entries);
            assert(layout(r) =~= new_supplier_layout());
            r
        },
        Query::POSTAddress(_) => {
            let entries = vec![
                (1usize, ADDRESS_LINE1, text(), true),
                (2usize, ADDRESS_LINE2, text(), false),
                (3usize, ADDRESS_TOWN, text(), true),
                (4usize, ADDRESS_COUNCIL, text(), false),
                (5usize, ADDRESS_POSTCODE, text(), true),
            ];
            let r = layout_of(&entries);
            assert(layout(r) =~= new_address_layout());
            r
        },
        Query::POSTContactEmails(_) => {
            let entries = vec![(1usize, EMAIL, text(), true)];
            let r = layout_of(&entries);
            assert(layout(r) =~= new_email_layout());
            r
        },
        Query::POSTContactPhoneNumbers(_) => {
            let entries = vec![(1usize, NUMBER, text(), true)];
            let r = layout_of(&entries);
            assert(layout(r) =~= new_number_layout());
            r
        },
        _ => {
            let r = DBTableStruct::new();
            assert(layout(r) =~= Seq::empty());
            r
        },
    }
}

} // verus!
