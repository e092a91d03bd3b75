use vstd::prelude::*;
use crate::record::{Record, conforms};
use crate::row::{Row, json_object, read_from, row_of, row_readable};
use crate::schema::Schema;
use crate::value::{FieldValue, key_text_of};

verus! {

/// The CRUD operation that a request or an error belongs to.
#[derive(Clone, Copy, Debug, PartialEq, Eq, Structural)]
pub enum Operation {
    Create,
    Read,
    ReadMany,
    Update,
    UpdateMany,
    Delete,
    DeleteMany,
}

/// Why a CRUD operation failed; each error names its operation.
#[derive(Clone, Copy, Debug, PartialEq, Eq)]
pub enum CrudError {
    /// The backend call failed: with the response status where one came,
    /// `None` where the transport failed before a response.
    Backend { operation: Operation, status: Option<u16> },
    /// A singular read found no row.
    NotFound { operation: Operation },
    /// A singular read found more than one row.
    AmbiguousResult { operation: Operation, rows: usize },
    /// The row at this index does not have the record's shape.
    Deserialization { operation: Operation, row: usize },
}

/// One call of the backend's primitives.
#[derive(Debug, PartialEq, Eq)]
pub enum Request {
    /// Insert a row, given as a JSON object text, into `table`.
    Create { table: String, body: String },
    /// Find the rows whose `key_column` holds one of `keys`.
    Find { table: String, key_column: String, keys: Vec<String> },
    /// For each pair, update the row whose `key_column` holds the key with
    /// the JSON object text.
    Update { table: String, key_column: String, items: Vec<(String, String)> },
    /// Delete each row whose `key_column` holds one of `keys`.
    Delete { table: String, key_column: String, keys: Vec<String> },
}

pub open spec fn texts(v: Seq<String>) -> Seq<Seq<char>> {
    v.map_values(|s: String| s@)
}

pub open spec fn pair_texts(v: Seq<(String, String)>) -> Seq<(Seq<char>, Seq<char>)> {
    v.map_values(|p: (String, String)| (p.0@, p.1@))
}

/// The key texts of the values.
pub open spec fn key_texts(keys: Seq<FieldValue>) -> Seq<Seq<char>> {
    keys.map_values(|k: FieldValue| key_text_of(k))
}

/// The JSON object text that stores a record.
pub open spec fn body_of(s: Schema, r: Seq<FieldValue>) -> Seq<char> {
    json_object(row_of(s, r))
}

/// The key text of a record.
pub open spec fn record_key_text(s: Schema, r: Seq<FieldValue>) -> Seq<char> {
    key_text_of(r[s.key_index as int])
}

/// The update pair of a record: its key text and its JSON object text.
pub open spec fn update_item(s: Schema, r: Seq<FieldValue>) -> (Seq<char>, Seq<char>) {
    (record_key_text(s, r), body_of(s, r))
}

pub open spec fn is_find(req: Request, s: Schema, keys: Seq<Seq<char>>) -> bool {
    req matches Request::Find { table, key_column, keys: k } && table@ == s.table_name@
        && key_column@ == s.key_column@ && texts(k@) == keys
}

pub open spec fn is_update(req: Request, s: Schema, items: Seq<(Seq<char>, Seq<char>)>) -> bool {
    req matches Request::Update { table, key_column, items: it } && table@ == s.table_name@
        && key_column@ == s.key_column@ && pair_texts(it@) == items
}

pub open spec fn is_delete(req: Request, s: Schema, keys: Seq<Seq<char>>) -> bool {
    req matches Request::Delete { table, key_column, keys: k } && table@ == s.table_name@
        && key_column@ == s.key_column@ && texts(k@) == keys
}

fn key_text_list(keys: &Vec<FieldValue>) -> (r: Vec<String>)
    ensures
        texts(r@) == key_texts(keys@),
{
    let mut r: Vec<String> = Vec::new();
    let mut i: usize = 0;
    while i < keys.len()
        invariant
            i <= keys@.len(),
            r@.len() == i,
            forall|j: int| 0 <= j < i ==> (#[trigger] r@[j])@ == key_text_of(keys@[j]),
        decreases keys@.len() - i,
    {
        r.push(keys[i].key_text());
        i = i + 1;
    }
    assert(texts(r@) =~= key_texts(keys@));
    r
}

fn update_pair(schema: &Schema, record: &Record) -> (r: (String, String))
    requires
        schema.wf(),
        conforms(*schema, record@),
    ensures
        (r.0@, r.1@) == update_item(*schema, record@),
{
    let key = record.primary_key(schema).key_text();
    let body = schema.to_row(record).to_json();
    (key, body)
}

/// The request that inserts `record`.
pub fn create_request(schema: &Schema, record: &Record) -> (r: Request)
    requires
        schema.wf(),
        conforms(*schema, record@),
    ensures
        r matches Request::Create { table, body } && table@ == schema.table_name@ && body@
            == body_of(*schema, record@),
{
    Request::Create { table: schema.table_name.clone(), body: schema.to_row(record).to_json() }
}

/// The request that finds the row keyed by `key`.
pub fn read_request(schema: &Schema, key: &FieldValue) -> (r: Request)
    ensures
        is_find(r, *schema, seq![key_text_of(*key)]),
{
    let mut keys: Vec<String> = Vec::new();
    keys.push(key.key_text());
    assert(texts(keys@) =~= seq![key_text_of(*key)]);
    Request::Find {
        table: schema.table_name.clone(),
        key_column: schema.key_column.clone(),
        keys,
    }
}

/// The request that finds the rows keyed by any of `keys`.
pub fn read_many_request(schema: &Schema, keys: &Vec<FieldValue>) -> (r: Request)
    ensures
        is_find(r, *schema, key_texts(keys@)),
{
    Request::Find {
        table: schema.table_name.clone(),
        key_column: schema.key_column.clone(),
        keys: key_text_list(keys),
    }
}

/// The request that stores `record` over the row with its key.
pub fn update_request(schema: &Schema, record: &Record) -> (r: Request)
    requires
        schema.wf(),
        conforms(*schema, record@),
    ensures
        is_update(r, *schema, seq![update_item(*schema, record@)]),
{
    let mut items: Vec<(String, String)> = Vec::new();
    items.push(update_pair(schema, record));
    assert(pair_texts(items@) =~= seq![update_item(*schema, record@)]);
    Request::Update {
        table: schema.table_name.clone(),
        key_column: schema.key_column.clone(),
        items,
    }
}

/// The request that stores each record over the row with its key, in
/// order.
pub fn update_many_request(schema: &Schema, records: &Vec<Record>) -> (r: Request)
    requires
        schema.wf(),
        forall|i: int| 0 <= i < records@.len() ==> conforms(*schema, #[trigger] records@[i]@),
    ensures
        is_update(
            r,
            *schema,
            records@.map_values(|rec: Record| update_item(*schema, rec@)),
        ),
{
    let ghost want = records@.map_values(|rec: Record| update_item(*schema, rec@));
    let mut items: Vec<(String, String)> = Vec::new();
    let mut i: usize = 0;
    while i < records.len()
        invariant
            schema.wf(),
            forall|j: int| 0 <= j < records@.len() ==> conforms(*schema, #[trigger] records@[j]@),
            want == records@.map_values(|rec: Record| update_item(*schema, rec@)),
            i <= records@.len(),
            items@.len() == i,
            forall|j: int|
                0 <= j < i ==> ((#[trigger] items@[j]).0@, items@[j].1@) == update_item(
                    *schema,
                    records@[j]@,
                ),
        decreases records@.len() - i,
    {
        items.push(update_pair(schema, &records[i]));
        i = i + 1;
    }
    assert(pair_texts(items@) =~= want);
    Request::Update {
        table: schema.table_name.clone(),
        key_column: schema.key_column.clone(),
        items,
    }
}

/// The request that deletes the row of `record`.
pub fn delete_request(schema: &Schema, record: &Record) -> (r: Request)
    requires
        schema.wf(),
        conforms(*schema, record@),
    ensures
        is_delete(r, *schema, seq![record_key_text(*schema, record@)]),
{
    let mut keys: Vec<String> = Vec::new();
    keys.push(record.primary_key(schema).key_text());
    assert(texts(keys@) =~= seq![record_key_text(*schema, record@)]);
    Request::Delete {
        table: schema.table_name.clone(),
        key_column: schema.key_column.clone(),
        keys,
    }
}

/// The request that deletes the rows keyed by `keys`.
pub fn delete_many_request(schema: &Schema, keys: &Vec<FieldValue>) -> (r: Request)
    ensures
        is_delete(r, *schema, key_texts(keys@)),
{
    Request::Delete {
        table: schema.table_name.clone(),
        key_column: schema.key_column.clone(),
        keys: key_text_list(keys),
    }
}

/// The outcome of a create, update or delete call.
pub fn write_result(operation: Operation, response: Result<(), Option<u16>>) -> (r: Result<
    (),
    CrudError,
>)
    ensures
        response is Ok ==> r is Ok,
        response is Err ==> r == Err::<(), CrudError>(
            CrudError::Backend { operation, status: response->Err_0 },
        ),
{
    match response {
        Ok(()) => Ok(()),
        Err(status) => Err(CrudError::Backend { operation, status }),
    }
}

/// The outcome of a singular read from the rows the backend returned: the
/// one row as a record; `NotFound` for none; `AmbiguousResult` for more
/// than one.
pub fn read_result(schema: &Schema, response: Result<Vec<Row>, Option<u16>>) -> (r: Result<
    Record,
    CrudError,
>)
    requires
        schema.wf(),
    ensures
        response is Err ==> r == Err::<Record, CrudError>(
            CrudError::Backend { operation: Operation::Read, status: response->Err_0 },
        ),
        response is Ok && response->Ok_0@.len() == 0 ==> r == Err::<Record, CrudError>(
            CrudError::NotFound { operation: Operation::Read },
        ),
        response is Ok && response->Ok_0@.len() > 1 ==> r == Err::<Record, CrudError>(
            CrudError::AmbiguousResult { operation: Operation::Read, rows: response->Ok_0@.len() as usize },
        ),
        response is Ok && response->Ok_0@.len() == 1 ==> {
            let row = response->Ok_0@[0]@;
            &&& r is Ok <==> row_readable(*schema, row)
            &&& r is Ok ==> read_from(*schema, row, r->Ok_0@) && conforms(*schema, r->Ok_0@)
            &&& r is Err ==> r == Err::<Record, CrudError>(
                CrudError::Deserialization { operation: Operation::Read, row: 0 },
            )
        },
{
    let rows = match response {
        Ok(rows) => rows,
        Err(status) => {
            return Err(CrudError::Backend { operation: Operation::Read, status });
        },
    };
    if rows.len() == 0 {
        return Err(CrudError::NotFound { operation: Operation::Read });
    }
    if rows.len() > 1 {
        return Err(CrudError::AmbiguousResult { operation: Operation::Read, rows: rows.len() });
    }
    match schema.read_row(&rows[0]) {
        Some(record) => Ok(record),
        None => Err(CrudError::Deserialization { operation: Operation::Read, row: 0 }),
    }
}

/// The outcome of a read of many keys: every row as a record, or the error
/// of the first row that cannot be read; nothing in between.
pub fn read_many_result(schema: &Schema, response: Result<Vec<Row>, Option<u16>>) -> (r: Result<
    Vec<Record>,
    CrudError,
>)
    requires
        schema.wf(),
    ensures
        response is Err ==> r == Err::<Vec<Record>, CrudError>(
            CrudError::Backend { operation: Operation::ReadMany, status: response->Err_0 },
        ),
        response is Ok ==> {
            let rows = response->Ok_0@;
            &&& r is Ok <==> forall|i: int| 0 <= i < rows.len() ==> row_readable(*schema, #[trigger] rows[i]@)
            &&& r is Ok ==> r->Ok_0@.len() == rows.len() && forall|i: int|
                0 <= i < rows.len() ==> read_from(*schema, rows[i]@, #[trigger] r->Ok_0@[i]@)
                    && conforms(*schema, r->Ok_0@[i]@)
            &&& r is Err ==> (r->Err_0 matches CrudError::Deserialization { operation, row }
                && operation == Operation::ReadMany && row < rows.len()
                && !row_readable(*schema, rows[row as int]@)
                && forall|i: int| 0 <= i < row ==> row_readable(*schema, #[trigger] rows[i]@))
        },
{
    let rows = match response {
        Ok(rows) => rows,
        Err(status) => {
            return Err(CrudError::Backend { operation: Operation::ReadMany, status });
        },
    };
    let mut records: Vec<Record> = Vec::new();
    let mut i: usize = 0;
    while i < rows.len()
        invariant
            schema.wf(),
            response is Ok && response->Ok_0 == rows,
            i <= rows@.len(),
            records@.len() == i,
            forall|j: int| 0 <= j < i ==> row_readable(*schema, #[trigger] rows@[j]@),
            forall|j: int|
                0 <= j < i ==> read_from(*schema, rows@[j]@, #[trigger] records@[j]@) && conforms(
                    *schema,
                    records@[j]@,
                ),
        decreases rows@.len() - i,
    {
        match schema.read_row(&rows[i]) {
            Some(record) => {
                records.push(record);
            },
            None => {
                return Err(CrudError::Deserialization { operation: Operation::ReadMany, row: i });
            },
        }
        i = i + 1;
    }
    Ok(records)
}

} // verus!
