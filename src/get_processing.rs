use vstd::prelude::*;
use crate::config::{ACTIVE, ADDRESS, CODE, CONTACT, CONTACT_ID, EMAIL, ID, NAME, NUMBER, PAYLOAD, REP, SUCCESS};
use crate::data_structs::{
    Cell, DBTable, JsonStructType, Value, cell_json, column_json, first_row_json, set_json_object, table_json,
};
use crate::document::{Json, JsonModel, with_member, with_nested, without_member};
use crate::errors::DatabaseError;
use crate::query_types::Query;
use crate::text::string_of;

verus! {

/// What a fetched table holds: its column keys and its rows.
pub struct TableView {
    pub names: Seq<Seq<char>>,
    pub rows: Seq<Seq<Cell>>,
}

pub open spec fn view_of(t: DBTable) -> TableView {
    TableView { names: t.structure.names(), rows: t.cells() }
}

pub open spec fn views_of(ts: Seq<DBTable>) -> Seq<TableView> {
    ts.map_values(|t: DBTable| view_of(t))
}

/// The envelope of a read that found nothing: no `payload` member.
pub open spec fn empty_envelope() -> JsonModel {
    JsonModel::Object(seq![(CODE@, JsonModel::Integer(200)), (SUCCESS@, JsonModel::Boolean(false))])
}

/// The envelope of a read that found something.
pub open spec fn envelope(payload: JsonModel) -> JsonModel {
    JsonModel::Object(
        seq![(CODE@, JsonModel::Integer(200)), (SUCCESS@, JsonModel::Boolean(true)), (PAYLOAD@, payload)],
    )
}

/// The cell at row `r`, column `k` as JSON, or `null` when there is none.
pub open spec fn cell_at(t: TableView, r: int, k: int) -> JsonModel {
    if 0 <= r < t.rows.len() && 0 <= k < t.rows[r].len() {
        cell_json(t.rows[r][k])
    } else {
        JsonModel::Null
    }
}

/// `j` with the contact lists of a person or company spliced in under
/// `contact`: each list only when it has rows.
pub open spec fn with_contact(j: JsonModel, email: TableView, numbers: TableView) -> JsonModel {
    let j1 = if email.rows.len() > 0 {
        with_nested(j, CONTACT@, EMAIL@, column_json(email.rows, 1))
    } else {
        j
    };
    if numbers.rows.len() > 0 {
        with_nested(j1, CONTACT@, NUMBER@, column_json(numbers.rows, 1))
    } else {
        j1
    }
}

/// The representative id that drives the second hop: the first column of
/// the first row, when it is a non-negative integer.
pub open spec fn rep_hop(rep: TableView) -> Option<u64> {
    if rep.rows.len() > 0 && rep.rows[0].len() > 0 {
        match rep.rows[0][0] {
            Cell::Integer(i) => if i >= 0 {
                Some(i as u64)
            } else {
                None
            },
            _ => None,
        }
    } else {
        None
    }
}

/// The supplier's own fields: the requested id, then its name and active
/// flag from the first row. Related data is added only where it was found.
pub open spec fn supplier_base(id: u64, primary: TableView) -> JsonModel {
    JsonModel::Object(
        seq![
            (ID@, JsonModel::Unsigned(id)),
            (NAME@, cell_at(primary, 0, 1)),
            (ACTIVE@, cell_at(primary, 0, 2)),
        ],
    )
}

/// A representative's first row without the given keys, with its contact
/// lists when the second hop was made.
pub open spec fn rep_payload(rep: TableView, drop_id: bool, contact: Option<(TableView, TableView)>) -> JsonModel {
    let row = first_row_json(rep.names, rep.rows);
    let row = if drop_id {
        without_member(row, ID@)
    } else {
        row
    };
    let row = without_member(row, CONTACT_ID@);
    match contact {
        Some((e, n)) => with_contact(row, e, n),
        None => row,
    }
}

/// The nested document of one supplier.
pub open spec fn supplier_payload(
    id: u64,
    primary: TableView,
    email: TableView,
    numbers: TableView,
    address: TableView,
    rep: TableView,
    rep_contact: Option<(TableView, TableView)>,
) -> JsonModel {
    let contacted = with_contact(supplier_base(id, primary), email, numbers);
    let addressed = if address.rows.len() > 0 {
        with_member(contacted, ADDRESS@, without_member(first_row_json(address.names, address.rows), ID@))
    } else {
        contacted
    };
    if rep.rows.len() > 0 {
        with_member(addressed, REP@, rep_payload(rep, true, rep_contact))
    } else {
        addressed
    }
}

/// The projection shape of a descriptor answered by one query.
pub open spec fn single_shape(q: Query) -> Option<JsonStructType> {
    match q {
        Query::GETSuppliers | Query::GETSuppliersEmail | Query::GETSuppliersNumbers
        | Query::GETSuppliersCategories | Query::GETSupplierCategoriesFromId(_) => Some(JsonStructType::Table),
        Query::GETSupplierIdFromName(_) | Query::GETSupplierNameFromId(_)
        | Query::GETSupplierAddressFromId(_) => Some(JsonStructType::Object),
        Query::GETSupplyRepEmailFromId(_) | Query::GETSupplyRepPhoneNumbersFromId(_) => Some(
            JsonStructType::TableColumn(1),
        ),
        _ => None,
    }
}

pub open spec fn project(t: TableView, shape: JsonStructType) -> JsonModel {
    match shape {
        JsonStructType::Table => table_json(t.names, t.rows),
        JsonStructType::Object => first_row_json(t.names, t.rows),
        JsonStructType::TableColumn(n) => column_json(t.rows, n as int),
    }
}

/// The next move of a read: fetch one more descriptor, answer, or refuse a
/// descriptor that has no read mapping.
pub enum Step {
    Fetch(Query),
    Done(JsonModel),
    Unsupported,
}

/// The read of descriptor `q`, given the tables fetched so far in the order
/// they were asked for. Every read first fetches `q` itself and answers the
/// empty envelope when that finds no row. A supplier by id then fetches its
/// emails, numbers, address and representative, and, when the
/// representative has an id, that person's emails and numbers; the
/// representative reads fetch the person's emails and numbers.
pub open spec fn fetch_step(q: Query, ts: Seq<TableView>) -> Step {
    if single_shape(q) is None && !(q is GETSupplierFromId || q is GETSupplierRepFromId || q is GETSupplyRepFromId) {
        Step::Unsupported
    } else if ts.len() == 0 {
        Step::Fetch(q)
    } else if ts[0].rows.len() == 0 {
        Step::Done(empty_envelope())
    } else {
        let n = ts.len();
        match q {
            Query::GETSupplierFromId(id) => if n == 1 {
                Step::Fetch(Query::GETSupplierEmailFromId(id))
            } else if n == 2 {
                Step::Fetch(Query::GETSupplierNumbersFromId(id))
            } else if n == 3 {
                Step::Fetch(Query::GETSupplierAddressFromId(id))
            } else if n == 4 {
                Step::Fetch(Query::GETSupplierRepFromId(id))
            } else {
                match rep_hop(ts[4]) {
                    Some(rid) => if n == 5 {
                        Step::Fetch(Query::GETSupplyRepEmailFromId(rid))
                    } else if n == 6 {
                        Step::Fetch(Query::GETSupplyRepPhoneNumbersFromId(rid))
                    } else {
                        Step::Done(envelope(supplier_payload(id, ts[0], ts[1], ts[2], ts[3], ts[4], Some((ts[5], ts[6])))))
                    },
                    None => Step::Done(envelope(supplier_payload(id, ts[0], ts[1], ts[2], ts[3], ts[4], None))),
                }
            },
            Query::GETSupplierRepFromId(_) => match rep_hop(ts[0]) {
                Some(rid) => if n == 1 {
                    Step::Fetch(Query::GETSupplyRepEmailFromId(rid))
                } else if n == 2 {
                    Step::Fetch(Query::GETSupplyRepPhoneNumbersFromId(rid))
                } else {
                    Step::Done(envelope(rep_payload(ts[0], false, Some((ts[1], ts[2])))))
                },
                None => Step::Done(envelope(rep_payload(ts[0], false, None))),
            },
            Query::GETSupplyRepFromId(id) => if n == 1 {
                Step::Fetch(Query::GETSupplyRepEmailFromId(id))
            } else if n == 2 {
                Step::Fetch(Query::GETSupplyRepPhoneNumbersFromId(id))
            } else {
                Step::Done(envelope(rep_payload(ts[0], false, Some((ts[1], ts[2])))))
            },
            _ => Step::Done(envelope(project(ts[0], single_shape(q)->0))),
        }
    }
}

proof fn lemma_keys()
    ensures
        CODE@ == seq!['c', 'o', 'd', 'e'],
        SUCCESS@ == seq!['s', 'u', 'c', 'c', 'e', 's', 's'],
        PAYLOAD@ == seq!['p', 'a', 'y', 'l', 'o', 'a', 'd'],
        ID@ == seq!['i', 'd'],
        NAME@ == seq!['n', 'a', 'm', 'e'],
        ACTIVE@ == seq!['a', 'c', 't', 'i', 'v', 'e'],
        CONTACT@ == seq!['c', 'o', 'n', 't', 'a', 'c', 't'],
        REP@ == seq!['r', 'e', 'p'],
        ADDRESS@ == seq!['a', 'd', 'd', 'r', 'e', 's', 's'],
{
    reveal_strlit("code");
    reveal_strlit("success");
    reveal_strlit("payload");
    reveal_strlit("id");
    reveal_strlit("name");
    reveal_strlit("active");
    reveal_strlit("contact");
    reveal_strlit("rep");
    reveal_strlit("address");
    assert(CODE@ =~= seq!['c', 'o', 'd', 'e']);
    assert(SUCCESS@ =~= seq!['s', 'u', 'c', 'c', 'e', 's', 's']);
    assert(PAYLOAD@ =~= seq!['p', 'a', 'y', 'l', 'o', 'a', 'd']);
    assert(ID@ =~= seq!['i', 'd']);
    assert(NAME@ =~= seq!['n', 'a', 'm', 'e']);
    assert(ACTIVE@ =~= seq!['a', 'c', 't', 'i', 'v', 'e']);
    assert(CONTACT@ =~= seq!['c', 'o', 'n', 't', 'a', 'c', 't']);
    assert(REP@ =~= seq!['r', 'e', 'p']);
    assert(ADDRESS@ =~= seq!['a', 'd', 'd', 'r', 'e', 's', 's']);
}

/// The executable counterpart of [`Step`].
#[derive(Debug)]
pub enum FetchStep {
    Fetch(Query),
    Done(Json),
}

fn empty_envelope_json() -> (r: Json)
    ensures
        r@ == empty_envelope(),
{
    let mut r = Json::new_object();
    r.set(CODE, Json::Integer(200));
    r.set(SUCCESS, Json::Boolean(false));
    proof {
        lemma_keys();
        reveal_with_fuel(crate::document::member_index, 7);
    }
    assert(CODE@ != SUCCESS@);
    assert(r@->Object_0 =~= empty_envelope()->Object_0);
    r
}

fn envelope_json(payload: Json) -> (r: Json)
    ensures
        r@ == envelope(payload@),
{
    let ghost p = payload@;
    let mut r = Json::new_object();
    r.set(CODE, Json::Integer(200));
    r.set(SUCCESS, Json::Boolean(true));
    r.set(PAYLOAD, payload);
    proof {
        lemma_keys();
        reveal_with_fuel(crate::document::member_index, 7);
    }
    assert(CODE@ != SUCCESS@);
    assert(CODE@ != PAYLOAD@);
    assert(SUCCESS@ != PAYLOAD@);
    assert(r@->Object_0 =~= envelope(p)->Object_0);
    r
}

fn cell_json_at(t: &DBTable, r: usize, k: usize) -> (j: Json)
    ensures
        j@ == cell_at(view_of(*t), r as int, k as int),
{
    if r < t.rows.len() && k < t.rows[r].cells.len() {
        t.rows[r].cells[k].to_json()
    } else {
        Json::Null
    }
}

fn add_contact(j: &mut Json, email: &DBTable, numbers: &DBTable)
    ensures
        final(j)@ == with_contact(old(j)@, view_of(*email), view_of(*numbers)),
{
    if email.rows.len() > 0 {
        j.set_nested(CONTACT, EMAIL, set_json_object(email, JsonStructType::TableColumn(1)));
    }
    if numbers.rows.len() > 0 {
        j.set_nested(CONTACT, NUMBER, set_json_object(numbers, JsonStructType::TableColumn(1)));
    }
}

/// Builds a representative's document from its first row.
pub fn rep_json(rep: &DBTable, drop_id: bool, contact: Option<(&DBTable, &DBTable)>) -> (r: Json)
    ensures
        r@ == rep_payload(
            view_of(*rep),
            drop_id,
            match contact {
                Some((e, n)) => Some((view_of(*e), view_of(*n))),
                None => None,
            },
        ),
{
    let mut row = set_json_object(rep, JsonStructType::Object);
    if drop_id {
        row.remove(ID);
    }
    row.remove(CONTACT_ID);
    if let Some((e, n)) = contact {
        add_contact(&mut row, e, n);
    }
    row
}

/// Builds the nested document of one supplier from its fetched tables.
pub fn supplier_json(
    id: u64,
    primary: &DBTable,
    email: &DBTable,
    numbers: &DBTable,
    address: &DBTable,
    rep: &DBTable,
    rep_contact: Option<(&DBTable, &DBTable)>,
) -> (r: Json)
    ensures
        r@ == supplier_payload(
            id,
            view_of(*primary),
            view_of(*email),
            view_of(*numbers),
            view_of(*address),
            view_of(*rep),
            match rep_contact {
                Some((e, n)) => Some((view_of(*e), view_of(*n))),
                None => None,
            },
        ),
{
    let mut p = Json::new_object();
    p.set(ID, Json::Unsigned(id));
    p.set(NAME, cell_json_at(primary, 0, 1));
    p.set(ACTIVE, cell_json_at(primary, 0, 2));
    proof {
        lemma_keys();
        reveal_with_fuel(crate::document::member_index, 7);
    }
    assert(p@->Object_0 =~= supplier_base(id, view_of(*primary))->Object_0);
    add_contact(&mut p, email, numbers);
    if address.rows.len() > 0 {
        let mut a = set_json_object(address, JsonStructType::Object);
        a.remove(ID);
        p.set(ADDRESS, a);
    }
    if rep.rows.len() > 0 {
        p.set(REP, rep_json(rep, true, rep_contact));
    }
    p
}

fn copy_query(q: &Query) -> (r: Query)
    requires
        single_shape(*q) is Some || q is GETSupplierFromId || q is GETSupplierRepFromId || q is GETSupplyRepFromId,
    ensures
        r == *q,
{
    match q {
        Query::GETSuppliers => Query::GETSuppliers,
        Query::GETSuppliersEmail => Query::GETSuppliersEmail,
        Query::GETSuppliersNumbers => Query::GETSuppliersNumbers,
        Query::GETSuppliersCategories => Query::GETSuppliersCategories,
        Query::GETSupplierNameFromId(id) => Query::GETSupplierNameFromId(*id),
        Query::GETSupplierFromId(id) => Query::GETSupplierFromId(*id),
        Query::GETSupplierIdFromName(name) => Query::GETSupplierIdFromName(name.clone()),
        Query::GETSupplierAddressFromId(id) => Query::GETSupplierAddressFromId(*id),
        Query::GETSupplierCategoriesFromId(id) => Query::GETSupplierCategoriesFromId(*id),
        Query::GETSupplierRepFromId(id) => Query::GETSupplierRepFromId(*id),
        Query::GETSupplyRepFromId(id) => Query::GETSupplyRepFromId(*id),
        Query::GETSupplyRepPhoneNumbersFromId(id) => Query::GETSupplyRepPhoneNumbersFromId(*id),
        Query::GETSupplyRepEmailFromId(id) => Query::GETSupplyRepEmailFromId(*id),
        _ => Query::ApiInvalidUri,
    }
}

fn hop_of(rep: &DBTable) -> (r: Option<u64>)
    ensures
        r == rep_hop(view_of(*rep)),
{
    if rep.rows.len() > 0 && rep.rows[0].cells.len() > 0 {
        assert(view_of(*rep).rows[0][0] == rep.rows@[0].cells@[0]@);
        match &rep.rows[0].cells[0] {
            Value::Integer(i) => if *i >= 0 {
                Some(*i as u64)
            } else {
                None
            },
            _ => None,
        }
    } else {
        None
    }
}

/// The next move of the read of `query`, given the tables fetched so far in
/// the order they were asked for. The caller runs each `Fetch` and hands the
/// table back; `Done` carries the response document.
pub fn process_query(query: &Query, fetched: &Vec<DBTable>) -> (r: Result<FetchStep, DatabaseError>)
    ensures
        match fetch_step(*query, views_of(fetched@)) {
            Step::Fetch(q) => r matches Ok(FetchStep::Fetch(x)) && x == q,
            Step::Done(j) => r matches Ok(FetchStep::Done(x)) && x@ == j,
            Step::Unsupported => r matches Err(e) && e is NotImplemented,
        },
{
    let ghost ts = views_of(fetched@);
    let supported = match query {
        Query::GETSuppliers | Query::GETSuppliersEmail | Query::GETSuppliersNumbers | Query::GETSuppliersCategories
        | Query::GETSupplierCategoriesFromId(_) | Query::GETSupplierIdFromName(_) | Query::GETSupplierNameFromId(_)
        | Query::GETSupplierAddressFromId(_) | Query::GETSupplyRepEmailFromId(_)
        | Query::GETSupplyRepPhoneNumbersFromId(_) | Query::GETSupplierFromId(_) | Query::GETSupplierRepFromId(_)
        | Query::GETSupplyRepFromId(_) => true,
        _ => false,
    };
    if !supported {
        return Err(DatabaseError::NotImplemented(string_of("descriptor has no read mapping")));
    }
    let n = fetched.len();
    if n == 0 {
        return Ok(FetchStep::Fetch(copy_query(query)));
    }
    assert(ts[0] == view_of(fetched@[0]));
    if fetched[0].rows.len() == 0 {
        return Ok(FetchStep::Done(empty_envelope_json()));
    }
    match query {
        Query::GETSupplierFromId(id) => {
            if n == 1 {
                return Ok(FetchStep::Fetch(Query::GETSupplierEmailFromId(*id)));
            } else if n == 2 {
                return Ok(FetchStep::Fetch(Query::GETSupplierNumbersFromId(*id)));
            } else if n == 3 {
                return Ok(FetchStep::Fetch(Query::GETSupplierAddressFromId(*id)));
            } else if n == 4 {
                return Ok(FetchStep::Fetch(Query::GETSupplierRepFromId(*id)));
            }
            assert(ts[1] == view_of(fetched@[1]));
            assert(ts[2] == view_of(fetched@[2]));
            assert(ts[3] == view_of(fetched@[3]));
            assert(ts[4] == view_of(fetched@[4]));
            match hop_of(&fetched[4]) {
                Some(rid) => {
                    if n == 5 {
                        return Ok(FetchStep::Fetch(Query::GETSupplyRepEmailFromId(rid)));
                    } else if n == 6 {
                        return Ok(FetchStep::Fetch(Query::GETSupplyRepPhoneNumbersFromId(rid)));
                    }
                    assert(ts[5] == view_of(fetched@[5]));
                    assert(ts[6] == view_of(fetched@[6]));
                    let p = supplier_json(
                        *id,
                        &fetched[0],
                        &fetched[1],
                        &fetched[2],
                        &fetched[3],
                        &fetched[4],
                        Some((&fetched[5], &fetched[6])),
                    );
                    Ok(FetchStep::Done(envelope_json(p)))
                },
                None => {
                    let p = supplier_json(*id, &fetched[0], &fetched[1], &fetched[2], &fetched[3], &fetched[4], None);
                    Ok(FetchStep::Done(envelope_json(p)))
                },
            }
        },
        Query::GETSupplierRepFromId(_) => {
            match hop_of(&fetched[0]) {
                Some(rid) => {
                    if n == 1 {
                        return Ok(FetchStep::Fetch(Query::GETSupplyRepEmailFromId(rid)));
                    } else if n == 2 {
                        return Ok(FetchStep::Fetch(Query::GETSupplyRepPhoneNumbersFromId(rid)));
                    }
                    assert(ts[1] == view_of(fetched@[1]));
                    assert(ts[2] == view_of(fetched@[2]));
                    let p = rep_json(&fetched[0], false, Some((&fetched[1], &fetched[2])));
                    Ok(FetchStep::Done(envelope_json(p)))
                },
                None => {
                    let p = rep_json(&fetched[0], false, None);
                    Ok(FetchStep::Done(envelope_json(p)))
                },
            }
        },
        Query::GETSupplyRepFromId(id) => {
            if n == 1 {
                return Ok(FetchStep::Fetch(Query::GETSupplyRepEmailFromId(*id)));
            } else if n == 2 {
                return Ok(FetchStep::Fetch(Query::GETSupplyRepPhoneNumbersFromId(*id)));
            }
            assert(ts[1] == view_of(fetched@[1]));
            assert(ts[2] == view_of(fetched@[2]));
            let p = rep_json(&fetched[0], false, Some((&fetched[1], &fetched[2])));
            Ok(FetchStep::Done(envelope_json(p)))
        },
        _ => {
            let shape = match query {
                Query::GETSupplierIdFromName(_) | Query::GETSupplierNameFromId(_)
                | Query::GETSupplierAddressFromId(_) => JsonStructType::Object,
                Query::GETSupplyRepEmailFromId(_) | Query::GETSupplyRepPhoneNumbersFromId(_) => JsonStructType::TableColumn(1),
                _ => JsonStructType::Table,
            };
            let p = set_json_object(&fetched[0], shape);
            Ok(FetchStep::Done(envelope_json(p)))
        },
    }
}

} // verus!

verus! {

/// A read whose first table has no row answers `{code: 200, success: false}`
/// without a `payload` member, and is not an error.
pub proof fn lemma_empty_result_envelope(q: Query, ts: Seq<TableView>)
    requires
        !(fetch_step(q, Seq::empty()) is Unsupported),
        ts.len() > 0,
        ts[0].rows.len() == 0,
    ensures
        fetch_step(q, ts) == Step::Done(empty_envelope()),
        crate::document::member(crate::document::members_of(empty_envelope()), PAYLOAD@) is None,
{
    lemma_keys();
    reveal_with_fuel(crate::document::member_index, 3);
}

/// The read depends only on the descriptor and on what the fetched tables
/// hold: two runs over tables with the same contents take the same steps and
/// give the same document.
pub proof fn lemma_fetch_deterministic(q: Query, a: Seq<DBTable>, b: Seq<DBTable>)
    requires
        views_of(a) == views_of(b),
    ensures
        fetch_step(q, views_of(a)) == fetch_step(q, views_of(b)),
{
}

} // verus!
