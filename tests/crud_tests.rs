use ext_crud::crud::{
    create_request, delete_many_request, delete_request, read_many_request, read_many_result,
    read_request, read_result, update_many_request, update_request, write_result, CrudError,
    Operation, Request,
};
use ext_crud::record::Record;
use ext_crud::row::{Cell, Row};
use ext_crud::schema::{FieldDecl, KeyMark, RecordDecl, Schema};
use ext_crud::value::{FieldType, FieldValue};

fn s(x: &str) -> String {
    x.to_string()
}

fn text(x: &str) -> FieldValue {
    FieldValue::Text(x.to_string())
}

fn field(name: &str, field_type: FieldType, key_mark: KeyMark) -> FieldDecl {
    FieldDecl { name: s(name), field_type, key_mark }
}

fn user_schema() -> Schema {
    Schema::extract(&RecordDecl {
        record_name: s("User"),
        table_name: Some(s("users")),
        partial_name: None,
        fields: vec![
            field("id", FieldType::Text, KeyMark::Unmarked),
            field("name", FieldType::Text, KeyMark::Unmarked),
            field("email", FieldType::Text, KeyMark::Unmarked),
            field("age", FieldType::UInt, KeyMark::Unmarked),
        ],
    })
    .unwrap()
}

fn product_schema() -> Schema {
    Schema::extract(&RecordDecl {
        record_name: s("Product"),
        table_name: Some(s("products")),
        partial_name: Some(s("ProductUpdate")),
        fields: vec![
            field("product_code", FieldType::Text, KeyMark::MarkedAs(s("product_id"))),
            field("name", FieldType::Text, KeyMark::Unmarked),
            field("price", FieldType::Decimal, KeyMark::Unmarked),
        ],
    })
    .unwrap()
}

fn user(id: &str, name: &str, email: &str, age: u64) -> Record {
    Record { values: vec![text(id), text(name), text(email), FieldValue::UInt(age)] }
}

fn row(cells: Vec<(&str, FieldValue)>) -> Row {
    Row { cells: cells.into_iter().map(|(c, v)| Cell { column: s(c), value: v }).collect() }
}

/// A table kept in memory that answers requests as a backend would.
struct FakeTable {
    schema: Schema,
    rows: Vec<Row>,
}

impl FakeTable {
    fn key_of(&self, r: &Row) -> String {
        r.get(&self.schema.key_column).unwrap().key_text()
    }

    fn create(&mut self, req: Request, record: &Record) {
        match req {
            Request::Create { table, body } => {
                assert_eq!(table, self.schema.table_name);
                let stored = self.schema.to_row(record);
                assert_eq!(body, stored.to_json());
                self.rows.push(stored);
            }
            other => panic!("not a create: {:?}", other),
        }
    }

    fn update(&mut self, req: Request, records: &[Record]) {
        match req {
            Request::Update { table, key_column, items } => {
                assert_eq!(table, self.schema.table_name);
                assert_eq!(key_column, self.schema.key_column);
                assert_eq!(items.len(), records.len());
                for ((key, body), record) in items.into_iter().zip(records) {
                    let stored = self.schema.to_row(record);
                    assert_eq!(body, stored.to_json());
                    for i in 0..self.rows.len() {
                        if self.key_of(&self.rows[i]) == key {
                            self.rows[i] = Row { cells: stored.cells.clone() };
                        }
                    }
                }
            }
            other => panic!("not an update: {:?}", other),
        }
    }

    fn find(&self, req: Request) -> Vec<Row> {
        match req {
            Request::Find { table, key_column, keys } => {
                assert_eq!(table, self.schema.table_name);
                assert_eq!(key_column, self.schema.key_column);
                self.rows
                    .iter()
                    .filter(|r| keys.contains(&self.key_of(r)))
                    .map(|r| Row { cells: r.cells.clone() })
                    .collect()
            }
            other => panic!("not a find: {:?}", other),
        }
    }
}

#[test]
fn user_created_updated_and_read_back() {
    let schema = user_schema();
    let mut table = FakeTable { schema: user_schema(), rows: vec![] };
    let id = "9f1c2d3e-4b5a-4c6d-8e7f-a1b2c3d4e5f6";
    let mut u = user(id, "John Doe", "john@example.com", 30);
    table.create(create_request(&schema, &u), &u);
    let read = read_result(&schema, Ok(table.find(read_request(&schema, &text(id))))).unwrap();
    assert_eq!(read, u);

    u.values[3] = FieldValue::UInt(40);
    table.update(update_request(&schema, &u), std::slice::from_ref(&u));
    let read = read_result(&schema, Ok(table.find(read_request(&schema, &text(id))))).unwrap();
    assert_eq!(read.values[3], FieldValue::UInt(40));
    assert_eq!(read.values[1], text("John Doe"));
    assert_eq!(read.values[2], text("john@example.com"));
}

#[test]
fn read_of_absent_key_is_not_found() {
    let schema = user_schema();
    let table = FakeTable { schema: user_schema(), rows: vec![] };
    let rows = table.find(read_request(&schema, &text("nobody")));
    assert_eq!(read_result(&schema, Ok(rows)), Err(CrudError::NotFound { operation: Operation::Read }));
}

#[test]
fn read_matching_two_rows_is_ambiguous() {
    let schema = user_schema();
    let a = user("dup", "A", "a@example.com", 1);
    let b = user("dup", "B", "b@example.com", 2);
    let rows = vec![schema.to_row(&a), schema.to_row(&b)];
    assert_eq!(
        read_result(&schema, Ok(rows)),
        Err(CrudError::AmbiguousResult { operation: Operation::Read, rows: 2 })
    );
}

#[test]
fn read_of_misshapen_row_fails_to_deserialize() {
    let schema = user_schema();
    let rows = vec![row(vec![("id", text("u-1")), ("name", text("Ann")), ("age", FieldValue::UInt(3))])];
    assert_eq!(
        read_result(&schema, Ok(rows)),
        Err(CrudError::Deserialization { operation: Operation::Read, row: 0 })
    );
}

#[test]
fn read_backend_failure_keeps_status() {
    let schema = user_schema();
    assert_eq!(
        read_result(&schema, Err(Some(500))),
        Err(CrudError::Backend { operation: Operation::Read, status: Some(500) })
    );
    assert_eq!(
        read_many_result(&schema, Err(None)),
        Err(CrudError::Backend { operation: Operation::ReadMany, status: None })
    );
}

#[test]
fn read_many_is_all_or_nothing() {
    let schema = user_schema();
    let a = user("a", "A", "a@example.com", 1);
    let b = user("b", "B", "b@example.com", 2);
    let good = vec![schema.to_row(&a), schema.to_row(&b)];
    assert_eq!(read_many_result(&schema, Ok(good)), Ok(vec![a.clone(), b.clone()]));
    let bad = vec![
        schema.to_row(&a),
        row(vec![("id", text("c")), ("name", text("C")), ("email", text("c@x")), ("age", text("old"))]),
        schema.to_row(&b),
    ];
    assert_eq!(
        read_many_result(&schema, Ok(bad)),
        Err(CrudError::Deserialization { operation: Operation::ReadMany, row: 1 })
    );
    assert_eq!(read_many_result(&schema, Ok(vec![])), Ok(vec![]));
}

#[test]
fn requests_name_table_and_key_column() {
    let schema = product_schema();
    let keys = vec![text("P-1"), text("P-2")];
    assert_eq!(
        read_many_request(&schema, &keys),
        Request::Find { table: s("products"), key_column: s("product_id"), keys: vec![s("P-1"), s("P-2")] }
    );
    assert_eq!(
        delete_many_request(&schema, &keys),
        Request::Delete { table: s("products"), key_column: s("product_id"), keys: vec![s("P-1"), s("P-2")] }
    );
}

#[test]
fn create_request_body_is_the_json_row() {
    let schema = product_schema();
    let p = Record { values: vec![text("PROD-001"), text("Super \"Widget\""), FieldValue::Decimal(s("19.99"))] };
    assert_eq!(
        create_request(&schema, &p),
        Request::Create {
            table: s("products"),
            body: s("{\"product_id\":\"PROD-001\",\"name\":\"Super \\\"Widget\\\"\",\"price\":19.99}"),
        }
    );
}

#[test]
fn update_and_delete_requests_use_key_text() {
    let schema = user_schema();
    let u = user("u-1", "Ann", "ann@example.com", 7);
    let body = s("{\"id\":\"u-1\",\"name\":\"Ann\",\"email\":\"ann@example.com\",\"age\":7}");
    assert_eq!(
        update_request(&schema, &u),
        Request::Update { table: s("users"), key_column: s("id"), items: vec![(s("u-1"), body.clone())] }
    );
    assert_eq!(
        delete_request(&schema, &u),
        Request::Delete { table: s("users"), key_column: s("id"), keys: vec![s("u-1")] }
    );
    let v = user("u-2", "Bo", "bo@example.com", 8);
    let body2 = s("{\"id\":\"u-2\",\"name\":\"Bo\",\"email\":\"bo@example.com\",\"age\":8}");
    assert_eq!(
        update_many_request(&schema, &vec![u, v]),
        Request::Update {
            table: s("users"),
            key_column: s("id"),
            items: vec![(s("u-1"), body), (s("u-2"), body2)],
        }
    );
}

#[test]
fn integer_keys_are_sent_as_decimal_text() {
    let schema = user_schema();
    assert_eq!(
        delete_many_request(&schema, &vec![FieldValue::UInt(12), FieldValue::Int(-4)]),
        Request::Delete { table: s("users"), key_column: s("id"), keys: vec![s("12"), s("-4")] }
    );
}

#[test]
fn write_result_tags_the_operation() {
    assert_eq!(write_result(Operation::Create, Ok(())), Ok(()));
    assert_eq!(
        write_result(Operation::DeleteMany, Err(Some(404))),
        Err(CrudError::Backend { operation: Operation::DeleteMany, status: Some(404) })
    );
}
