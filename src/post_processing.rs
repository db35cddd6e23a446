use vstd::prelude::*;
use vstd::string::*;
use crate::config::{ADDRESS, CONTACT, EMAIL, MESSAGE, NUMBER, REP};
use crate::data_structs::{Cell, DBTableStruct, DbFieldStruct, Value};
use crate::document::{Json, JsonModel, member, members_of};
use crate::errors::DatabaseError;
use crate::ieee::{float_bits, float_bits_of};
use crate::query_types::{Content, Query};
use crate::sql::{
    Param, SQL_INSERT_EMAILS, SQL_INSERT_NUMBERS, SQL_LINK_NEW_EMAILS, SQL_LINK_NEW_NUMBERS, SQL_LINK_NEW_REP, SqlStatement,
    contact_plan, contact_statements, field_map, post_sql, rep_insert, rep_sql, write_sql,
};
use crate::tables::{Tag, layout, new_rep_layout, new_rep_table, post_tables, tag, write_layout};
use crate::text::string_of;

verus! {

/// A body value read as the type a column expects: whole numbers that fit
/// 64 signed bits for integers, strings for text, the UTF-8 bytes of a string
/// for binary data, booleans, and any number for floats (a whole number as
/// the double nearest to it).
pub open spec fn read_field(t: Tag, v: JsonModel) -> Option<Cell> {
    match t {
        Tag::Integer => match v {
            JsonModel::Integer(i) => Some(Cell::Integer(i)),
            JsonModel::Unsigned(u) => if u <= i64::MAX {
                Some(Cell::Integer(u as i64))
            } else {
                None
            },
            _ => None,
        },
        Tag::Text => match v {
            JsonModel::Str(s) => Some(Cell::String(s)),
            _ => None,
        },
        Tag::Binary => match v {
            JsonModel::Str(s) => Some(Cell::Binary(vstd::utf8::encode_utf8(s))),
            _ => None,
        },
        Tag::Boolean => match v {
            JsonModel::Boolean(b) => Some(Cell::Boolean(b)),
            _ => None,
        },
        Tag::Float => match v {
            JsonModel::Float(f) => Some(Cell::Float(f)),
            JsonModel::Integer(i) => Some(
                Cell::Float(
                    float_bits(
                        i < 0,
                        (if i < 0 {
                            -(i as int)
                        } else {
                            i as int
                        }) as nat,
                    ) as u64,
                ),
            ),
            JsonModel::Unsigned(u) => Some(Cell::Float(float_bits(false, u as nat) as u64)),
            _ => None,
        },
        Tag::Null => Some(Cell::Null),
    }
}

/// The field map that a body gives for a layout, in layout order: a field
/// the body lacks is left out when it may be null and refused otherwise; a
/// field of the wrong type is refused.
pub open spec fn extracted(data: JsonModel, fields: Seq<(nat, Seq<char>, Tag, bool)>) -> Option<Seq<(Seq<char>, Cell)>>
    decreases fields.len(),
{
    if fields.len() == 0 {
        Some(Seq::empty())
    } else {
        match extracted(data, fields.drop_last()) {
            None => None,
            Some(front) => {
                let f = fields.last();
                match member(members_of(data), f.1) {
                    Some(v) => match read_field(f.2, v) {
                        Some(c) => Some(front.push((f.1, c))),
                        None => None,
                    },
                    None => if f.3 {
                        None
                    } else {
                        Some(front)
                    },
                }
            },
        }
    }
}


fn member_ref<'a>(data: &'a Json, key: &str) -> (r: Option<&'a Json>)
    ensures
        match member(members_of(data@), key@) {
            Some(v) => r matches Some(x) && x@ == v,
            None => r is None,
        },
{
    match data {
        Json::Object(m) => {
            proof {
                crate::document::lemma_members_model(m@);
            }
            let mut i: usize = 0;
            while i < m.len()
                invariant
                    *data == Json::Object(*m),
                    i <= m@.len(),
                    members_of(data@).len() == m@.len(),
                    forall|j: int| 0 <= j < m@.len() ==> #[trigger] members_of(data@)[j] == (m@[j].0@, m@[j].1@),
                    crate::document::member_index(members_of(data@), key@, 0) == crate::document::member_index(
                        members_of(data@),
                        key@,
                        i as int,
                    ),
                decreases m@.len() - i,
            {
                if crate::text::same_text(m[i].0.as_str(), key) {
                    return Some(&m[i].1);
                }
                i += 1;
            }
            None
        },
        _ => None,
    }
}

fn read_value(field: &DbFieldStruct, v: &Json) -> (r: Option<Value>)
    ensures
        match read_field(tag(field.field_type), v@) {
            Some(c) => r matches Some(x) && x@ == c,
            None => r is None,
        },
{
    match &field.field_type {
        Value::Integer(_) => match v {
            Json::Integer(i) => Some(Value::Integer(*i)),
            Json::Unsigned(u) => if *u <= i64::MAX as u64 {
                Some(Value::Integer(*u as i64))
            } else {
                None
            },
            _ => None,
        },
        Value::String(_) => match v {
            Json::Str(s) => Some(Value::String(s.clone())),
            _ => None,
        },
        Value::Binary(_) => match v {
            Json::Str(s) => Some(Value::Binary(s.as_str().as_bytes_vec())),
            _ => None,
        },
        Value::Boolean(_) => match v {
            Json::Boolean(b) => Some(Value::Boolean(*b)),
            _ => None,
        },
        Value::Float(_) => match v {
            Json::Float(f) => Some(Value::Float(*f)),
            Json::Integer(i) => {
                let magnitude: u64 = if *i >= 0 {
                    *i as u64
                } else {
                    ((-(*i + 1)) as u64) + 1
                };
                Some(Value::Float(float_bits_of(*i < 0, magnitude)))
            },
            Json::Unsigned(u) => Some(Value::Float(float_bits_of(false, *u))),
            _ => None,
        },
        Value::Null => Some(Value::Null),
    }
}

/// Reads the fields of a layout out of a JSON object body.
pub fn extract_json_to_table(data: &Json, table_ref: DBTableStruct) -> (r: Result<Vec<(String, Value)>, DatabaseError>)
    ensures
        match extracted(data@, layout(table_ref)) {
            Some(m) => r matches Ok(v) && field_map(v@) == m,
            None => r matches Err(e) && e is SubmissionError,
        },
{
    let ghost fields = layout(table_ref);
    let mut out: Vec<(String, Value)> = Vec::new();
    let mut i: usize = 0;
    assert(fields.subrange(0, 0) =~= Seq::<(nat, Seq<char>, Tag, bool)>::empty());
    assert(field_map(out@) =~= Seq::<(Seq<char>, Cell)>::empty());
    while i < table_ref.fields.len()
        invariant
            fields == layout(table_ref),
            i <= fields.len(),
            extracted(data@, fields.subrange(0, i as int)) == Some(field_map(out@)),
        decreases fields.len() - i,
    {
        let field = &table_ref.fields[i];
        let ghost sub = fields.subrange(0, i + 1);
        assert(sub.drop_last() =~= fields.subrange(0, i as int));
        assert(sub.last() == (field.index as nat, field.name@, tag(field.field_type), field.not_null));
        match member_ref(data, field.name.as_str()) {
            Some(v) => match read_value(field, v) {
                Some(x) => {
                    let ghost before = field_map(out@);
                    let ghost xm = x@;
                    out.push((field.name.clone(), x));
                    assert(field_map(out@) =~= before.push((field.name@, xm)));
                },
                None => {
                    proof {
                        lemma_extracted_stays_none(data@, fields, i as int + 1);
                    }
                    return Err(DatabaseError::SubmissionError(string_of("a field of the body has the wrong type")));
                },
            },
            None => {
                if field.not_null {
                    proof {
                        lemma_extracted_stays_none(data@, fields, i as int + 1);
                    }
                    return Err(DatabaseError::SubmissionError(string_of("a required field is missing from the body")));
                }
            },
        }
        i += 1;
    }
    assert(fields.subrange(0, i as int) =~= fields);
    Ok(out)
}

proof fn lemma_extracted_stays_none(data: JsonModel, fields: Seq<(nat, Seq<char>, Tag, bool)>, k: int)
    requires
        0 <= k <= fields.len(),
        extracted(data, fields.subrange(0, k)) is None,
    ensures
        extracted(data, fields) is None,
    decreases fields.len() - k,
{
    if k < fields.len() {
        let sub = fields.subrange(0, k + 1);
        assert(sub.drop_last() =~= fields.subrange(0, k));
        lemma_extracted_stays_none(data, fields, k + 1);
    } else {
        assert(fields.subrange(0, k) =~= fields);
    }
}

/// `UPDATE supplier SET fk_address = (newest address) WHERE id = (newest supplier)`.
pub const SQL_LINK_NEW_ADDRESS: &'static str = "UPDATE supplier SET fk_address = (SELECT MAX(id) FROM address) WHERE id = (SELECT MAX(id) FROM supplier)";

/// Whether a body member is present and not `null`.
pub open spec fn has_section(body: JsonModel, key: Seq<char>) -> bool {
    match member(members_of(body), key) {
        Some(v) => !(v is Null),
        None => false,
    }
}

/// The insert statement that a body gives for a create descriptor, if the
/// body fits the descriptor's layout.
pub open spec fn insert_statement(q: Query, body: JsonModel) -> Option<(Seq<char>, Seq<Param>)> {
    match extracted(body, write_layout(q)) {
        Some(m) => write_sql(q, m),
        None => None,
    }
}

/// What a create request comes to.
pub enum WritePlan {
    /// The statements to run, in order, in one transaction.
    Run(Seq<(Seq<char>, Seq<Param>)>),
    /// The body does not fit: a submission error.
    Refused,
}

pub open spec fn section(body: JsonModel, key: Seq<char>) -> JsonModel {
    match member(members_of(body), key) {
        Some(v) => v,
        None => JsonModel::Null,
    }
}

/// The address of a new supplier: its insert, then the supplier pointed at
/// it; nothing when the body has no address.
pub open spec fn address_part(body: JsonModel) -> Option<Seq<(Seq<char>, Seq<Param>)>> {
    if !has_section(body, ADDRESS@) {
        Some(Seq::empty())
    } else {
        match insert_statement(Query::POSTAddress(Content::Empty), section(body, ADDRESS@)) {
            Some(a) => Some(seq![a, (SQL_LINK_NEW_ADDRESS@, Seq::empty())]),
            None => None,
        }
    }
}

/// One contact list of a new supplier: the insert of its values and their
/// link to the supplier's contact; nothing when the list is absent.
pub open spec fn list_part(contact: JsonModel, key: Seq<char>, insert_head: Seq<char>, link_head: Seq<char>) -> Option<
    Seq<(Seq<char>, Seq<Param>)>,
> {
    if !has_section(contact, key) {
        Some(Seq::empty())
    } else {
        match contact_plan(section(contact, key), insert_head, link_head) {
            Some((i, l)) => Some(seq![i, l]),
            None => None,
        }
    }
}

/// The contact lists of a new supplier: emails, then numbers.
pub open spec fn contact_part(body: JsonModel) -> Option<Seq<(Seq<char>, Seq<Param>)>> {
    if !has_section(body, CONTACT@) {
        Some(Seq::empty())
    } else {
        let c = section(body, CONTACT@);
        match (
            list_part(c, EMAIL@, SQL_INSERT_EMAILS@, SQL_LINK_NEW_EMAILS@),
            list_part(c, NUMBER@, SQL_INSERT_NUMBERS@, SQL_LINK_NEW_NUMBERS@),
        ) {
            (Some(e), Some(n)) => Some(e + n),
            _ => None,
        }
    }
}

/// The representative of a new supplier: its insert, then the supplier
/// pointed at it; nothing when the body has none.
pub open spec fn rep_part(body: JsonModel) -> Option<Seq<(Seq<char>, Seq<Param>)>> {
    if !has_section(body, REP@) {
        Some(Seq::empty())
    } else {
        match extracted(section(body, REP@), new_rep_layout()) {
            Some(m) => match rep_sql(m) {
                Some(r) => Some(seq![r, (SQL_LINK_NEW_REP@, Seq::empty())]),
                None => None,
            },
            None => None,
        }
    }
}

/// The plan of a create request. A new supplier is inserted, then its
/// address, contact lists and representative as far as the body has them,
/// each linked to the supplier. An address alone is read from the body's
/// `address` member; a contact list alone from its `email` or `number`
/// member.
pub open spec fn write_plan(q: Query, body: JsonModel) -> WritePlan {
    match q {
        Query::POSTSupplier(_) => match insert_statement(q, body) {
            None => WritePlan::Refused,
            Some(main) => match (address_part(body), contact_part(body), rep_part(body)) {
                (Some(a), Some(c), Some(r)) => WritePlan::Run(seq![main] + a + c + r),
                _ => WritePlan::Refused,
            },
        },
        Query::POSTAddress(_) => match member(members_of(body), ADDRESS@) {
            Some(part) => match insert_statement(q, part) {
                Some(st) => WritePlan::Run(seq![st]),
                None => WritePlan::Refused,
            },
            None => WritePlan::Refused,
        },
        Query::POSTContactEmails(_) => match contact_plan(section(body, EMAIL@), SQL_INSERT_EMAILS@, SQL_LINK_NEW_EMAILS@) {
            Some((i, _)) => WritePlan::Run(seq![i]),
            None => WritePlan::Refused,
        },
        Query::POSTContactPhoneNumbers(_) => match contact_plan(
            section(body, NUMBER@),
            SQL_INSERT_NUMBERS@,
            SQL_LINK_NEW_NUMBERS@,
        ) {
            Some((i, _)) => WritePlan::Run(seq![i]),
            None => WritePlan::Refused,
        },
        _ => WritePlan::Refused,
    }
}

pub open spec fn statements_model(v: Seq<SqlStatement>) -> Seq<(Seq<char>, Seq<Param>)> {
    v.map_values(|s: SqlStatement| s.model())
}

fn section_present(body: &Json, key: &str) -> (r: bool)
    ensures
        r == has_section(body@, key@),
{
    match member_ref(body, key) {
        Some(v) => !v.is_null(),
        None => false,
    }
}

fn section_of<'a>(body: &'a Json, key: &str, null: &'a Json) -> (r: &'a Json)
    requires
        null@ == JsonModel::Null,
    ensures
        r@ == section(body@, key@),
{
    match member_ref(body, key) {
        Some(v) => v,
        None => null,
    }
}

fn insert_of(q: &Query, body: &Json) -> (r: Option<SqlStatement>)
    ensures
        match insert_statement(*q, body@) {
            Some(m) => r matches Some(s) && s.model() == m,
            None => r is None,
        },
{
    match extract_json_to_table(body, post_tables(q)) {
        Ok(values) => post_sql(q, &values),
        Err(_) => None,
    }
}

fn refused(why: &str) -> (r: DatabaseError)
    ensures
        r is SubmissionError,
{
    DatabaseError::SubmissionError(string_of(why))
}

fn address_statements(body: &Json) -> (r: Result<Vec<SqlStatement>, DatabaseError>)
    ensures
        match address_part(body@) {
            Some(m) => r matches Ok(v) && statements_model(v@) == m,
            None => r matches Err(e) && e is SubmissionError,
        },
{
    let mut plan: Vec<SqlStatement> = Vec::new();
    if !section_present(body, ADDRESS) {
        assert(statements_model(plan@) =~= Seq::<(Seq<char>, Seq<Param>)>::empty());
        return Ok(plan);
    }
    let null = Json::Null;
    let part = section_of(body, ADDRESS, &null);
    let addr = match insert_of(&Query::POSTAddress(Content::Empty), part) {
        Some(st) => st,
        None => return Err(refused("the address does not fit its layout")),
    };
    let ghost am = addr.model();
    plan.push(addr);
    let link = SqlStatement { text: string_of(SQL_LINK_NEW_ADDRESS), params: Vec::new() };
    assert(link.model().1 =~= Seq::<Param>::empty());
    plan.push(link);
    assert(statements_model(plan@) =~= seq![am, (SQL_LINK_NEW_ADDRESS@, Seq::<Param>::empty())]);
    Ok(plan)
}

fn list_statements(contact: &Json, key: &str, insert_head: &str, link_head: &str) -> (r: Result<Vec<SqlStatement>, DatabaseError>)
    ensures
        match list_part(contact@, key@, insert_head@, link_head@) {
            Some(m) => r matches Ok(v) && statements_model(v@) == m,
            None => r matches Err(e) && e is SubmissionError,
        },
{
    let mut plan: Vec<SqlStatement> = Vec::new();
    if !section_present(contact, key) {
        assert(statements_model(plan@) =~= Seq::<(Seq<char>, Seq<Param>)>::empty());
        return Ok(plan);
    }
    let null = Json::Null;
    let part = section_of(contact, key, &null);
    let (insert, link) = contact_statements(part, insert_head, link_head)?;
    let ghost im = insert.model();
    let ghost lm = link.model();
    plan.push(insert);
    plan.push(link);
    assert(statements_model(plan@) =~= seq![im, lm]);
    Ok(plan)
}

fn contact_statements_of(body: &Json) -> (r: Result<Vec<SqlStatement>, DatabaseError>)
    ensures
        match contact_part(body@) {
            Some(m) => r matches Ok(v) && statements_model(v@) == m,
            None => r matches Err(e) && e is SubmissionError,
        },
{
    if !section_present(body, CONTACT) {
        let plan: Vec<SqlStatement> = Vec::new();
        assert(statements_model(plan@) =~= Seq::<(Seq<char>, Seq<Param>)>::empty());
        return Ok(plan);
    }
    let null = Json::Null;
    let c = section_of(body, CONTACT, &null);
    let mut emails = list_statements(c, EMAIL, SQL_INSERT_EMAILS, SQL_LINK_NEW_EMAILS)?;
    let mut numbers = list_statements(c, NUMBER, SQL_INSERT_NUMBERS, SQL_LINK_NEW_NUMBERS)?;
    let ghost em = statements_model(emails@);
    let ghost nm = statements_model(numbers@);
    emails.append(&mut numbers);
    assert(statements_model(emails@) =~= em + nm);
    Ok(emails)
}

fn rep_statements(body: &Json) -> (r: Result<Vec<SqlStatement>, DatabaseError>)
    ensures
        match rep_part(body@) {
            Some(m) => r matches Ok(v) && statements_model(v@) == m,
            None => r matches Err(e) && e is SubmissionError,
        },
{
    let mut plan: Vec<SqlStatement> = Vec::new();
    if !section_present(body, REP) {
        assert(statements_model(plan@) =~= Seq::<(Seq<char>, Seq<Param>)>::empty());
        return Ok(plan);
    }
    let null = Json::Null;
    let part = section_of(body, REP, &null);
    let values = match extract_json_to_table(part, new_rep_table()) {
        Ok(v) => v,
        Err(_) => return Err(refused("the representative does not fit its layout")),
    };
    let insert = match rep_insert(&values) {
        Some(st) => st,
        None => return Err(refused("the representative does not fit its layout")),
    };
    let ghost im = insert.model();
    plan.push(insert);
    let link = SqlStatement { text: string_of(SQL_LINK_NEW_REP), params: Vec::new() };
    assert(link.model().1 =~= Seq::<Param>::empty());
    plan.push(link);
    assert(statements_model(plan@) =~= seq![im, (SQL_LINK_NEW_REP@, Seq::<Param>::empty())]);
    Ok(plan)
}

fn single(st: SqlStatement) -> (r: Vec<SqlStatement>)
    ensures
        statements_model(r@) == seq![st.model()],
{
    let ghost m = st.model();
    let mut plan: Vec<SqlStatement> = Vec::new();
    plan.push(st);
    assert(statements_model(plan@) =~= seq![m]);
    plan
}

/// Plans a create request: the statements to run in one transaction, or a
/// `SubmissionError` when the body does not fit or the descriptor creates
/// nothing.
pub fn process_query(query: &Query, body_content: &Json) -> (r: Result<Vec<SqlStatement>, DatabaseError>)
    ensures
        match write_plan(*query, body_content@) {
            WritePlan::Run(m) => r matches Ok(v) && statements_model(v@) == m,
            WritePlan::Refused => r matches Err(e) && e is SubmissionError,
        },
{
    match query {
        Query::POSTSupplier(_) => {
            let main = match insert_of(query, body_content) {
                Some(st) => st,
                None => return Err(refused("the supplier does not fit its layout")),
            };
            let mut plan = single(main);
            let mut address = address_statements(body_content)?;
            let mut contact = contact_statements_of(body_content)?;
            let mut rep = rep_statements(body_content)?;
            let ghost pm = statements_model(plan@);
            let ghost am = statements_model(address@);
            let ghost cm = statements_model(contact@);
            let ghost rm = statements_model(rep@);
            plan.append(&mut address);
            plan.append(&mut contact);
            plan.append(&mut rep);
            assert(statements_model(plan@) =~= pm + am + cm + rm);
            Ok(plan)
        },
        Query::POSTAddress(_) => {
            let part = match member_ref(body_content, ADDRESS) {
                Some(s) => s,
                None => return Err(refused("no address data")),
            };
            match insert_of(query, part) {
                Some(st) => Ok(single(st)),
                None => Err(refused("the address does not fit its layout")),
            }
        },
        Query::POSTContactEmails(_) => {
            let null = Json::Null;
            let part = section_of(body_content, EMAIL, &null);
            let (insert, _) = contact_statements(part, SQL_INSERT_EMAILS, SQL_LINK_NEW_EMAILS)?;
            Ok(single(insert))
        },
        Query::POSTContactPhoneNumbers(_) => {
            let null = Json::Null;
            let part = section_of(body_content, NUMBER, &null);
            let (insert, _) = contact_statements(part, SQL_INSERT_NUMBERS, SQL_LINK_NEW_NUMBERS)?;
            Ok(single(insert))
        },
        _ => Err(refused("the descriptor creates nothing")),
    }
}

/// The envelope of a write that went through.
pub open spec fn written_envelope() -> JsonModel {
    JsonModel::Object(
        seq![
            (crate::config::CODE@, JsonModel::Integer(200)),
            (crate::config::SUCCESS@, JsonModel::Boolean(true)),
            (MESSAGE@, JsonModel::Str(INSERTED@)),
        ],
    )
}

pub const INSERTED: &'static str = "Insertion success";

/// Builds the envelope of a write that went through.
pub fn written_response() -> (r: Json)
    ensures
        r@ == written_envelope(),
{
    let mut r = Json::new_object();
    r.set(crate::config::CODE, Json::Integer(200));
    r.set(crate::config::SUCCESS, Json::Boolean(true));
    r.set(MESSAGE, Json::text(INSERTED));
    proof {
        reveal_strlit("code");
        reveal_strlit("success");
        reveal_strlit("message");
        assert(crate::config::CODE@ =~= seq!['c', 'o', 'd', 'e']);
        assert(crate::config::SUCCESS@ =~= seq!['s', 'u', 'c', 'c', 'e', 's', 's']);
        assert(MESSAGE@ =~= seq!['m', 'e', 's', 's', 'a', 'g', 'e']);
        reveal_with_fuel(crate::document::member_index, 4);
    }
    assert(r@->Object_0 =~= written_envelope()->Object_0);
    r
}

} // verus!
