use vstd::prelude::*;
use crate::document::{Json, JsonModel, items_model, lemma_items_model, members_set};
use crate::errors::DatabaseError;
use crate::text::{decimal, decimal_text, string_of};

verus! {

/// The kinds of relational store the server can talk to.
pub enum Type {
    Sqlite,
    Postgres,
}

/// A cell of a relational table. Floating-point numbers are carried as their
/// IEEE-754 bit pattern. In a column layout the variant names the expected
/// type and its payload is not read.
#[derive(Debug)]
pub enum Value {
    Boolean(bool),
    Binary(Vec<u8>),
    Float(u64),
    Integer(i64),
    String(String),
    Null,
}

/// A value as the store hands it over, before it is read against a layout.
#[derive(Debug)]
pub enum RawValue {
    Binary(Vec<u8>),
    Float(u64),
    Integer(i64),
    String(String),
    Null,
}

/// The mathematical value of a cell.
pub enum Cell {
    Boolean(bool),
    Binary(Seq<u8>),
    Float(u64),
    Integer(i64),
    String(Seq<char>),
    Null,
}

impl View for Value {
    type V = Cell;

    open spec fn view(&self) -> Cell {
        match self {
            Value::Boolean(b) => Cell::Boolean(*b),
            Value::Binary(b) => Cell::Binary(b@),
            Value::Float(f) => Cell::Float(*f),
            Value::Integer(i) => Cell::Integer(*i),
            Value::String(s) => Cell::String(s@),
            Value::Null => Cell::Null,
        }
    }
}

impl View for RawValue {
    type V = Cell;

    open spec fn view(&self) -> Cell {
        match self {
            RawValue::Binary(b) => Cell::Binary(b@),
            RawValue::Float(f) => Cell::Float(*f),
            RawValue::Integer(i) => Cell::Integer(*i),
            RawValue::String(s) => Cell::String(s@),
            RawValue::Null => Cell::Null,
        }
    }
}

/// The JSON form of a cell; bytes become an array of numbers.
pub open spec fn cell_json(c: Cell) -> JsonModel {
    match c {
        Cell::Boolean(b) => JsonModel::Boolean(b),
        Cell::Binary(b) => JsonModel::Array(Seq::new(b.len(), |i: int| JsonModel::Integer(b[i] as i64))),
        Cell::Float(f) => JsonModel::Float(f),
        Cell::Integer(i) => JsonModel::Integer(i),
        Cell::String(s) => JsonModel::Str(s),
        Cell::Null => JsonModel::Null,
    }
}

/// A stored value read as the type that `tag` names: a value of another
/// type, or a null, becomes `Null`; an integer read as a boolean is true
/// unless it is zero.
pub open spec fn coerce(tag: Value, raw: Cell) -> Cell {
    match tag {
        Value::Boolean(_) => match raw {
            Cell::Integer(i) => Cell::Boolean(i != 0),
            _ => Cell::Null,
        },
        Value::Float(_) => match raw {
            Cell::Float(f) => Cell::Float(f),
            _ => Cell::Null,
        },
        Value::Integer(_) => match raw {
            Cell::Integer(i) => Cell::Integer(i),
            _ => Cell::Null,
        },
        Value::String(_) => match raw {
            Cell::String(s) => Cell::String(s),
            _ => Cell::Null,
        },
        Value::Binary(_) => match raw {
            Cell::Binary(b) => Cell::Binary(b),
            _ => Cell::Null,
        },
        Value::Null => Cell::Null,
    }
}

impl Value {
    pub fn to_json(&self) -> (r: Json)
        ensures
            r@ == cell_json(self@),
    {
        match self {
            Value::Boolean(b) => Json::Boolean(*b),
            Value::Binary(bytes) => {
                let mut items: Vec<Json> = Vec::new();
                let mut i: usize = 0;
                proof {
                    lemma_items_model(items@);
                }
                while i < bytes.len()
                    invariant
                        i <= bytes@.len(),
                        items_model(items@) == Seq::new(i as nat, |k: int| JsonModel::Integer(bytes@[k] as i64)),
                    decreases bytes@.len() - i,
                {
                    let ghost before = items@;
                    items.push(Json::Integer(bytes[i] as i64));
                    assert(items@.drop_last() =~= before);
                    assert(items_model(items@) == items_model(before).push(items@.last()@));
                    i += 1;
                    assert(items_model(items@) =~= Seq::new(i as nat, |k: int| JsonModel::Integer(bytes@[k] as i64)));
                }
                let r = Json::Array(items);
                assert(r@->Array_0 =~= Seq::new(bytes@.len(), |k: int| JsonModel::Integer(bytes@[k] as i64)));
                r
            },
            Value::Float(f) => Json::Float(*f),
            Value::Integer(i) => Json::Integer(*i),
            Value::String(s) => Json::Str(s.clone()),
            Value::Null => Json::Null,
        }
    }
}

/// The layout of one column: its position in the statement's result, the
/// JSON key it is published under, the type it is read as, and whether the
/// store promises a value.
pub struct DbFieldStruct {
    pub index: usize,
    pub name: String,
    pub field_type: Value,
    pub not_null: bool,
}

impl DbFieldStruct {
    pub fn new(column: usize, name: &str, a_type: Value, not_null: bool) -> (r: DbFieldStruct)
        ensures
            r.index == column,
            r.name@ == name@,
            r.field_type == a_type,
            r.not_null == not_null,
    {
        DbFieldStruct { index: column, name: string_of(name), field_type: a_type, not_null }
    }
}

/// A row layout: the columns in order.
pub struct DBTableStruct {
    pub fields: Vec<DbFieldStruct>,
}

impl DBTableStruct {
    pub fn new() -> (r: DBTableStruct)
        ensures
            r.fields@.len() == 0,
    {
        DBTableStruct { fields: Vec::new() }
    }

    /// The JSON keys of the columns, in order.
    pub open spec fn names(&self) -> Seq<Seq<char>> {
        self.fields@.map_values(|f: DbFieldStruct| f.name@)
    }
}

/// A row of cells, aligned with a layout.
pub struct DBTableRow {
    pub cells: Vec<Value>,
}

impl DBTableRow {
    pub fn new() -> (r: DBTableRow)
        ensures
            r.cells@.len() == 0,
    {
        DBTableRow { cells: Vec::new() }
    }

    pub fn add_cell(&mut self, cell: Value)
        ensures
            final(self).cells@ == old(self).cells@.push(cell),
    {
        self.cells.push(cell);
    }

    pub open spec fn model(&self) -> Seq<Cell> {
        self.cells@.map_values(|c: Value| c@)
    }
}

/// The result of one query: the layout and the rows read against it.
pub struct DBTable {
    pub structure: DBTableStruct,
    pub rows: Vec<DBTableRow>,
}

/// The members of a row object: each cell under its column's key, for the
/// first `n` cells that have a column; a later key replaces an earlier equal
/// one in place.
pub open spec fn row_members(names: Seq<Seq<char>>, cells: Seq<Cell>, n: int) -> Seq<(Seq<char>, JsonModel)>
    decreases n,
{
    if n <= 0 {
        Seq::empty()
    } else {
        members_set(row_members(names, cells, n - 1), names[n - 1], cell_json(cells[n - 1]))
    }
}

pub open spec fn min(a: int, b: int) -> int {
    if a < b {
        a
    } else {
        b
    }
}

/// A row as a JSON object keyed by column names.
pub open spec fn row_json(names: Seq<Seq<char>>, cells: Seq<Cell>) -> JsonModel {
    JsonModel::Object(row_members(names, cells, min(names.len() as int, cells.len() as int)))
}

/// A table as a JSON array of row objects.
pub open spec fn table_json(names: Seq<Seq<char>>, rows: Seq<Seq<Cell>>) -> JsonModel {
    JsonModel::Array(Seq::new(rows.len(), |i: int| row_json(names, rows[i])))
}

/// One column across all rows; a row without that cell gives `null`.
pub open spec fn column_json(rows: Seq<Seq<Cell>>, n: int) -> JsonModel {
    JsonModel::Array(
        Seq::new(
            rows.len(),
            |i: int|
                if 0 <= n < rows[i].len() {
                    cell_json(rows[i][n])
                } else {
                    JsonModel::Null
                },
        ),
    )
}

/// The first row as an object, or `null` when there is none.
pub open spec fn first_row_json(names: Seq<Seq<char>>, rows: Seq<Seq<Cell>>) -> JsonModel {
    if rows.len() > 0 {
        row_json(names, rows[0])
    } else {
        JsonModel::Null
    }
}

fn row_to_json(fields: &Vec<DbFieldStruct>, row: &DBTableRow) -> (r: Json)
    ensures
        r@ == row_json(fields@.map_values(|f: DbFieldStruct| f.name@), row.model()),
{
    let ghost names = fields@.map_values(|f: DbFieldStruct| f.name@);
    let ghost cells = row.model();
    let n = if fields.len() < row.cells.len() {
        fields.len()
    } else {
        row.cells.len()
    };
    let mut obj = Json::new_object();
    let mut i: usize = 0;
    while i < n
        invariant
            n as int == min(names.len() as int, cells.len() as int),
            names == fields@.map_values(|f: DbFieldStruct| f.name@),
            cells == row.model(),
            i <= n,
            obj@ == JsonModel::Object(row_members(names, cells, i as int)),
        decreases n - i,
    {
        let cell = row.cells[i].to_json();
        obj.set(fields[i].name.as_str(), cell);
        i += 1;
    }
    obj
}

impl DBTable {
    pub fn new(db_struct: DBTableStruct) -> (r: DBTable)
        ensures
            r.structure == db_struct,
            r.rows@.len() == 0,
    {
        DBTable { structure: db_struct, rows: Vec::new() }
    }

    /// Adds a row at the end.
    pub fn add_row(&mut self, row: DBTableRow)
        ensures
            final(self).rows@ == old(self).rows@.push(row),
            final(self).structure == old(self).structure,
    {
        self.rows.push(row);
    }

    pub fn remove_row(&mut self, index: usize)
        requires
            index < old(self).rows@.len(),
        ensures
            final(self).rows@ == old(self).rows@.remove(index as int),
            final(self).structure == old(self).structure,
    {
        self.rows.remove(index);
    }

    /// The cells of every row, in order.
    pub open spec fn cells(&self) -> Seq<Seq<Cell>> {
        self.rows@.map_values(|r: DBTableRow| r.model())
    }

    /// The table as a JSON array with one object per row.
    pub fn to_json(&self) -> (r: Json)
        ensures
            r@ == table_json(self.structure.names(), self.cells()),
    {
        let mut items: Vec<Json> = Vec::new();
        let mut i: usize = 0;
        proof {
            lemma_items_model(items@);
        }
        while i < self.rows.len()
            invariant
                i <= self.rows@.len(),
                items_model(items@) == Seq::new(i as nat, |k: int| row_json(self.structure.names(), self.cells()[k])),
            decreases self.rows@.len() - i,
        {
            let ghost before = items@;
            items.push(row_to_json(&self.structure.fields, &self.rows[i]));
            assert(items@.drop_last() =~= before);
            assert(items_model(items@) == items_model(before).push(items@.last()@));
            i += 1;
            assert(items_model(items@) =~= Seq::new(i as nat, |k: int| row_json(self.structure.names(), self.cells()[k])));
        }
        let r = Json::Array(items);
        assert(r@->Array_0 =~= Seq::new(self.rows@.len(), |k: int| row_json(self.structure.names(), self.cells()[k])));
        r
    }
}

/// The projection shapes of a table.
pub enum JsonStructType {
    /// All rows, as an array of objects.
    Table,
    /// The first row only, as an object.
    Object,
    /// One column across all rows, as a bare array.
    TableColumn(usize),
}

pub open spec fn projected(t: &DBTable, shape: JsonStructType) -> JsonModel {
    match shape {
        JsonStructType::Table => table_json(t.structure.names(), t.cells()),
        JsonStructType::Object => first_row_json(t.structure.names(), t.cells()),
        JsonStructType::TableColumn(n) => column_json(t.cells(), n as int),
    }
}

/// Projects a table into JSON in the given shape.
pub fn set_json_object(table: &DBTable, json_type: JsonStructType) -> (r: Json)
    ensures
        r@ == projected(table, json_type),
{
    match json_type {
        JsonStructType::Table => table.to_json(),
        JsonStructType::Object => {
            if table.rows.len() > 0 {
                row_to_json(&table.structure.fields, &table.rows[0])
            } else {
                Json::Null
            }
        },
        JsonStructType::TableColumn(column_index) => {
            let ghost rows = table.cells();
            let mut items: Vec<Json> = Vec::new();
            let mut i: usize = 0;
            proof {
                lemma_items_model(items@);
            }
            while i < table.rows.len()
                invariant
                    i <= table.rows@.len(),
                    rows == table.cells(),
                    items_model(items@) == column_json(rows, column_index as int)->Array_0.subrange(0, i as int),
                decreases table.rows@.len() - i,
            {
                let ghost before = items@;
                let row = &table.rows[i];
                let item = if column_index < row.cells.len() {
                    row.cells[column_index].to_json()
                } else {
                    Json::Null
                };
                items.push(item);
                assert(items@.drop_last() =~= before);
                assert(items_model(items@) == items_model(before).push(items@.last()@));
                i += 1;
                assert(items_model(items@) =~= column_json(rows, column_index as int)->Array_0.subrange(0, i as int));
            }
            let r = Json::Array(items);
            assert(r@->Array_0 =~= column_json(rows, column_index as int)->Array_0);
            r
        },
    }
}

/// Whether raw rows can be read against a layout: the layout is not empty,
/// the statement has exactly one column per field, every field points at
/// one of them, and every row holds one value per column.
pub open spec fn layout_fits(fields: Seq<DbFieldStruct>, column_count: nat, raw: Seq<Seq<RawValue>>) -> bool {
    &&& fields.len() > 0
    &&& column_count == fields.len()
    &&& forall|j: int| 0 <= j < fields.len() ==> #[trigger] fields[j].index < column_count
    &&& forall|i: int| 0 <= i < raw.len() ==> #[trigger] raw[i].len() == column_count
}

/// The rows that reading `raw` against the layout gives: one cell per field,
/// in field order, each the value at the field's column coerced to its type.
pub open spec fn decoded_rows(fields: Seq<DbFieldStruct>, raw: Seq<Seq<RawValue>>) -> Seq<Seq<Cell>> {
    Seq::new(
        raw.len(),
        |i: int| Seq::new(fields.len(), |j: int| coerce(fields[j].field_type, raw[i][fields[j].index as int]@)),
    )
}

pub const MISMATCH_HEAD: &'static str = "the statement has ";
pub const MISMATCH_MIDDLE: &'static str = " columns but its layout has ";
pub const MISMATCH_TAIL: &'static str = " fields";

/// The diagnostic of a statement whose column count differs from its
/// layout: both counts, in decimal.
pub open spec fn mismatch_message(columns: nat, fields: nat) -> Seq<char> {
    MISMATCH_HEAD@ + decimal(columns) + MISMATCH_MIDDLE@ + decimal(fields) + MISMATCH_TAIL@
}

fn mismatch_text(columns: usize, fields: usize) -> (r: String)
    ensures
        r@ == mismatch_message(columns as nat, fields as nat),
{
    let mut r = string_of(MISMATCH_HEAD);
    r.append(decimal_text(columns as u64).as_str());
    r.append(MISMATCH_MIDDLE);
    r.append(decimal_text(fields as u64).as_str());
    r.append(MISMATCH_TAIL);
    r
}

fn decode_cell(tag: &Value, raw: &RawValue) -> (r: Value)
    ensures
        r@ == coerce(*tag, raw@),
{
    match tag {
        Value::Boolean(_) => match raw {
            RawValue::Integer(i) => Value::Boolean(*i != 0),
            _ => Value::Null,
        },
        Value::Float(_) => match raw {
            RawValue::Float(f) => Value::Float(*f),
            _ => Value::Null,
        },
        Value::Integer(_) => match raw {
            RawValue::Integer(i) => Value::Integer(*i),
            _ => Value::Null,
        },
        Value::String(_) => match raw {
            RawValue::String(s) => Value::String(s.clone()),
            _ => Value::Null,
        },
        Value::Binary(_) => match raw {
            RawValue::Binary(b) => {
                let mut copy: Vec<u8> = Vec::new();
                let mut i: usize = 0;
                while i < b.len()
                    invariant
                        i <= b@.len(),
                        copy@ == b@.subrange(0, i as int),
                    decreases b@.len() - i,
                {
                    copy.push(b[i]);
                    i += 1;
                    assert(copy@ =~= b@.subrange(0, i as int));
                }
                assert(copy@ =~= b@);
                Value::Binary(copy)
            },
            _ => Value::Null,
        },
        Value::Null => Value::Null,
    }
}

/// Reads the rows a statement returned against the layout registered for
/// its descriptor. An empty layout (a descriptor without one), a statement
/// whose column count differs from the layout, or a row or field that does
/// not fit it, is an integrity fault reported as
/// `QueryError`; no row is ever truncated or reordered. A value of the wrong
/// type, or a null, becomes a `Null` cell in its place.
pub fn db_data_into_table(
    column_count: usize,
    raw_rows: &Vec<Vec<RawValue>>,
    row_structure: DBTableStruct,
) -> (r: Result<DBTable, DatabaseError>)
    ensures
        layout_fits(row_structure.fields@, column_count as nat, raw_rows@.map_values(|r: Vec<RawValue>| r@)) <==> r is Ok,
        r matches Ok(t) ==> t.structure == row_structure && t.cells() == decoded_rows(
            row_structure.fields@,
            raw_rows@.map_values(|r: Vec<RawValue>| r@),
        ),
        r matches Err(e) ==> e is QueryError,
        row_structure.fields@.len() > 0 && column_count != row_structure.fields@.len() ==> (r matches Err(
            DatabaseError::QueryError(m),
        ) && m@ == mismatch_message(column_count as nat, row_structure.fields@.len())),
{
    let ghost raw = raw_rows@.map_values(|r: Vec<RawValue>| r@);
    let ghost fields = row_structure.fields@;
    if row_structure.fields.len() == 0 {
        return Err(DatabaseError::QueryError(string_of("no layout is registered for this statement")));
    }
    if column_count != row_structure.fields.len() {
        return Err(DatabaseError::QueryError(mismatch_text(column_count, row_structure.fields.len())));
    }
    let mut j: usize = 0;
    while j < row_structure.fields.len()
        invariant
            j <= fields.len(),
            fields == row_structure.fields@,
            column_count == fields.len(),
            forall|k: int| 0 <= k < j ==> #[trigger] fields[k].index < column_count,
        decreases fields.len() - j,
    {
        if row_structure.fields[j].index >= column_count {
            return Err(DatabaseError::QueryError(string_of("a field points past the statement's columns")));
        }
        j += 1;
    }
    let mut i: usize = 0;
    while i < raw_rows.len()
        invariant
            i <= raw.len(),
            raw == raw_rows@.map_values(|r: Vec<RawValue>| r@),
            column_count == row_structure.fields@.len(),
            forall|k: int| 0 <= k < i ==> #[trigger] raw[k].len() == column_count,
        decreases raw.len() - i,
    {
        assert(raw[i as int] == raw_rows@[i as int]@);
        if raw_rows[i].len() != column_count {
            return Err(DatabaseError::QueryError(string_of("a row does not hold one value per column")));
        }
        i += 1;
    }
    let ghost expected = decoded_rows(fields, raw);
    let mut rows: Vec<DBTableRow> = Vec::new();
    let mut i: usize = 0;
    while i < raw_rows.len()
        invariant
            i <= raw.len(),
            fields == row_structure.fields@,
            raw == raw_rows@.map_values(|r: Vec<RawValue>| r@),
            layout_fits(fields, column_count as nat, raw),
            expected == decoded_rows(fields, raw),
            rows@.len() == i,
            forall|k: int| 0 <= k < i ==> #[trigger] rows@[k].model() == expected[k],
        decreases raw.len() - i,
    {
        let raw_row = &raw_rows[i];
        assert(raw[i as int] == raw_row@);
        let mut row = DBTableRow::new();
        let mut j: usize = 0;
        while j < row_structure.fields.len()
            invariant
                j <= fields.len(),
                i < raw.len(),
                fields == row_structure.fields@,
                raw == raw_rows@.map_values(|r: Vec<RawValue>| r@),
                raw[i as int] == raw_row@,
                layout_fits(fields, column_count as nat, raw),
                expected == decoded_rows(fields, raw),
                row.model() == expected[i as int].subrange(0, j as int),
            decreases fields.len() - j,
        {
            let field = &row_structure.fields[j];
            assert(fields[j as int].index < column_count);
            let cell = decode_cell(&field.field_type, &raw_row[field.index]);
            let ghost old_model = row.model();
            assert(raw[i as int][fields[j as int].index as int] == raw_row@[field.index as int]);
            assert(expected[i as int][j as int] == coerce(fields[j as int].field_type, raw_row@[field.index as int]@));
            let ghost cm = cell@;
            row.add_cell(cell);
            assert(row.model() =~= old_model.push(cm));
            j += 1;
            assert(row.model() =~= expected[i as int].subrange(0, j as int));
        }
        assert(row.model() =~= expected[i as int]);
        rows.push(row);
        i += 1;
    }
    let t = DBTable { structure: row_structure, rows };
    assert(t.cells() =~= expected);
    Ok(t)
}

} // verus!
