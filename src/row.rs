use vstd::prelude::*;
use vstd::string::*;
use crate::record::{Record, conforms};
use crate::schema::Schema;
use crate::value::{FieldValue, accepts, bool_string, conformed, decimal, key_text_of, signed_decimal};

verus! {

/// One named value of a row as the backend stores it.
#[derive(Clone, Debug, PartialEq, Eq)]
pub struct Cell {
    pub column: String,
    pub value: FieldValue,
}

/// A row as the backend stores it: values under column names.
#[derive(Clone, Debug, PartialEq, Eq)]
pub struct Row {
    pub cells: Vec<Cell>,
}

impl View for Row {
    type V = Seq<(Seq<char>, FieldValue)>;

    open spec fn view(&self) -> Seq<(Seq<char>, FieldValue)> {
        self.cells@.map_values(|c: Cell| (c.column@, c.value))
    }
}

/// The row that stores record `r` of schema `s`.
pub open spec fn row_of(s: Schema, r: Seq<FieldValue>) -> Seq<(Seq<char>, FieldValue)> {
    Seq::new(r.len(), |i: int| (s.column(i), r[i]))
}

/// The value under the first cell named `col`, if any.
pub open spec fn cell_for(cells: Seq<(Seq<char>, FieldValue)>, col: Seq<char>) -> Option<FieldValue>
    decreases cells.len(),
{
    if cells.len() == 0 {
        None
    } else if cells[0].0 == col {
        Some(cells[0].1)
    } else {
        cell_for(cells.drop_first(), col)
    }
}

/// Field `i` of schema `s` can be read from the row.
pub open spec fn field_readable(s: Schema, row: Seq<(Seq<char>, FieldValue)>, i: int) -> bool {
    &&& cell_for(row, s.column(i)) is Some
    &&& accepts(s.fields@[i].field_type, cell_for(row, s.column(i))->0)
}

/// Every field of schema `s` can be read from the row.
pub open spec fn row_readable(s: Schema, row: Seq<(Seq<char>, FieldValue)>) -> bool {
    forall|i: int| 0 <= i < s.fields@.len() ==> #[trigger] field_readable(s, row, i)
}

/// `r` is the record read from the row.
pub open spec fn read_from(s: Schema, row: Seq<(Seq<char>, FieldValue)>, r: Seq<FieldValue>) -> bool {
    &&& r.len() == s.fields@.len()
    &&& forall|i: int|
        0 <= i < r.len() ==> #[trigger] conformed(
            s.fields@[i].field_type,
            cell_for(row, s.column(i))->0,
            r[i],
        )
}

/// The JSON text of a string, quoted and escaped.
pub uninterp spec fn json_string_of(s: Seq<char>) -> Seq<char>;

/// The JSON text of a value.
pub open spec fn json_value_text(v: FieldValue) -> Seq<char> {
    match v {
        FieldValue::Text(s) => json_string_of(s@),
        FieldValue::Decimal(s) => s@,
        _ => key_text_of(v),
    }
}

pub open spec fn json_member(c: (Seq<char>, FieldValue)) -> Seq<char> {
    json_string_of(c.0) + seq![':'] + json_value_text(c.1)
}

/// The texts joined by commas.
pub open spec fn comma_joined(ms: Seq<Seq<char>>) -> Seq<char>
    decreases ms.len(),
{
    if ms.len() == 0 {
        Seq::empty()
    } else if ms.len() == 1 {
        ms[0]
    } else {
        comma_joined(ms.drop_last()) + seq![','] + ms.last()
    }
}

/// A JSON object text made of the member texts.
pub open spec fn object_text(ms: Seq<Seq<char>>) -> Seq<char> {
    seq!['{'] + comma_joined(ms) + seq!['}']
}

/// The JSON object text of a row.
pub open spec fn json_object(cells: Seq<(Seq<char>, FieldValue)>) -> Seq<char> {
    object_text(cells.map_values(|c: (Seq<char>, FieldValue)| json_member(c)))
}

/// Relies on `serde_json::to_string` on a `str`: the quoted, escaped JSON
/// string. It writes into a `Vec`, whose writes do not fail, so its `Err`
/// arm is never taken.
#[verifier::external_body]
fn json_quote(s: &str) -> (r: String)
    ensures
        r@ == json_string_of(s@),
{
    serde_json::to_string(s).unwrap_or_default()
}

impl FieldValue {
    /// The value as JSON text.
    pub fn to_json(&self) -> (r: String)
        ensures
            r@ == json_value_text(*self),
    {
        match self {
            FieldValue::Text(s) => json_quote(s.as_str()),
            FieldValue::Decimal(s) => s.clone(),
            FieldValue::Bool(b) => bool_string(*b),
            _ => self.key_text(),
        }
    }
}

proof fn lemma_cell_for_step(cells: Seq<(Seq<char>, FieldValue)>, i: int, col: Seq<char>)
    requires
        0 <= i < cells.len(),
        cells[i].0 != col,
    ensures
        cell_for(cells.subrange(i, cells.len() as int), col) == cell_for(
            cells.subrange(i + 1, cells.len() as int),
            col,
        ),
{
    assert(cells.subrange(i, cells.len() as int).drop_first() =~= cells.subrange(
        i + 1,
        cells.len() as int,
    ));
}

proof fn lemma_cell_for_first(cells: Seq<(Seq<char>, FieldValue)>, col: Seq<char>, i: int)
    requires
        0 <= i < cells.len(),
        cells[i].0 == col,
        forall|j: int| 0 <= j < i ==> (#[trigger] cells[j]).0 != col,
    ensures
        cell_for(cells, col) == Some(cells[i].1),
    decreases i,
{
    if i > 0 {
        assert forall|j: int| 0 <= j < i - 1 implies (#[trigger] cells.drop_first()[j]).0 != col by {
            assert(cells.drop_first()[j] == cells[j + 1]);
        }
        lemma_cell_for_first(cells.drop_first(), col, i - 1);
    }
}

/// No two fields of the schema are stored under one column.
pub open spec fn distinct_columns(s: Schema) -> bool {
    forall|i: int, j: int|
        0 <= i < j < s.fields@.len() ==> #[trigger] s.column(i) != #[trigger] s.column(j)
}

proof fn lemma_stored_cell(s: Schema, r: Seq<FieldValue>, i: int)
    requires
        s.wf(),
        conforms(s, r),
        distinct_columns(s),
        0 <= i < r.len(),
    ensures
        cell_for(row_of(s, r), s.column(i)) == Some(r[i]),
{
    let row = row_of(s, r);
    assert forall|j: int| 0 <= j < i implies (#[trigger] row[j]).0 != s.column(i) by {
        assert(s.column(j) != s.column(i));
    }
    lemma_cell_for_first(row, s.column(i), i);
}

/// Where no two fields share a column, the row that stores a record reads
/// back as that record, and as no other.
pub proof fn lemma_stored_row_reads_back(s: Schema, r: Seq<FieldValue>)
    requires
        s.wf(),
        conforms(s, r),
        distinct_columns(s),
    ensures
        row_readable(s, row_of(s, r)),
        read_from(s, row_of(s, r), r),
        forall|x: Seq<FieldValue>| #[trigger] read_from(s, row_of(s, r), x) ==> x == r,
{
    let row = row_of(s, r);
    assert forall|i: int| 0 <= i < s.fields@.len() implies #[trigger] field_readable(s, row, i)
        && conformed(s.fields@[i].field_type, cell_for(row, s.column(i))->0, r[i]) by {
        lemma_stored_cell(s, r, i);
    }
    assert forall|i: int| 0 <= i < r.len() implies #[trigger] conformed(
        s.fields@[i].field_type,
        cell_for(row, s.column(i))->0,
        r[i],
    ) by {
        assert(field_readable(s, row, i));
    }
    assert forall|x: Seq<FieldValue>| #[trigger] read_from(s, row, x) implies x == r by {
        assert forall|i: int| 0 <= i < r.len() implies x[i] == r[i] by {
            lemma_stored_cell(s, r, i);
            assert(conformed(s.fields@[i].field_type, cell_for(row, s.column(i))->0, x[i]));
        }
        assert(x =~= r);
    }
}

impl Row {
    /// The value under the first cell named `col`.
    pub fn get<'a>(&'a self, col: &String) -> (r: Option<&'a FieldValue>)
        ensures
            r is Some <==> cell_for(self@, col@) is Some,
            r is Some ==> *r->0 == cell_for(self@, col@)->0,
    {
        let mut i: usize = 0;
        assert(self@.subrange(0, self@.len() as int) =~= self@);
        while i < self.cells.len()
            invariant
                i <= self@.len(),
                self@.len() == self.cells@.len(),
                cell_for(self@, col@) == cell_for(self@.subrange(i as int, self@.len() as int), col@),
            decreases self@.len() - i,
        {
            if self.cells[i].column == *col {
                assert(self@.subrange(i as int, self@.len() as int)[0] == self@[i as int]);
                return Some(&self.cells[i].value);
            }
            proof {
                lemma_cell_for_step(self@, i as int, col@);
            }
            i = i + 1;
        }
        assert(self@.subrange(i as int, self@.len() as int).len() == 0);
        None
    }

    /// The row as a JSON object text.
    pub fn to_json(&self) -> (r: String)
        ensures
            r@ == json_object(self@),
    {
        let mut members: Vec<String> = Vec::new();
        let mut i: usize = 0;
        while i < self.cells.len()
            invariant
                i <= self@.len(),
                self@.len() == self.cells@.len(),
                members@.len() == i,
                forall|j: int| 0 <= j < i ==> (#[trigger] members@[j])@ == json_member(self@[j]),
            decreases self@.len() - i,
        {
            let name = json_quote(self.cells[i].column.as_str());
            let value = self.cells[i].value.to_json();
            members.push(json_member_text(name.as_str(), value.as_str()));
            i = i + 1;
        }
        assert(members@.map_values(|m: String| m@) =~= self@.map_values(
            |c: (Seq<char>, FieldValue)| json_member(c),
        ));
        json_object_text(&members)
    }
}

/// A JSON object member: the quoted name, a colon, the value text.
pub fn json_member_text(quoted_name: &str, value: &str) -> (r: String)
    ensures
        r@ == quoted_name@ + seq![':'] + value@,
{
    proof {
        reveal_strlit(":");
    }
    String::from_str(quoted_name).concat(":").concat(value)
}

/// The JSON object text made of the member texts, in order.
pub fn json_object_text(members: &Vec<String>) -> (r: String)
    ensures
        r@ == object_text(members@.map_values(|m: String| m@)),
{
    let ghost ms = members@.map_values(|m: String| m@);
    let mut r = String::from_str("{");
    proof {
        reveal_strlit("{");
    }
    let mut i: usize = 0;
    while i < members.len()
        invariant
            i <= members@.len(),
            ms == members@.map_values(|m: String| m@),
            r@ == seq!['{'] + comma_joined(ms.subrange(0, i as int)),
        decreases members@.len() - i,
    {
        proof {
            reveal_strlit(",");
        }
        if i > 0 {
            r.append(",");
        }
        r.append(members[i].as_str());
        proof {
            let cur = ms.subrange(0, i as int + 1);
            assert(cur.drop_last() =~= ms.subrange(0, i as int));
            assert(r@ =~= seq!['{'] + comma_joined(cur));
        }
        i = i + 1;
    }
    proof {
        reveal_strlit("}");
    }
    r.append("}");
    assert(ms.subrange(0, i as int) =~= ms);
    r
}

impl Schema {
    /// The row that stores `record`: each value under its field's column.
    pub fn to_row(&self, record: &Record) -> (r: Row)
        requires
            self.wf(),
            conforms(*self, record@),
        ensures
            r@ == row_of(*self, record@),
    {
        let mut cells: Vec<Cell> = Vec::new();
        let mut i: usize = 0;
        while i < record.values.len()
            invariant
                self.wf(),
                conforms(*self, record@),
                i <= record@.len(),
                cells@.len() == i,
                forall|j: int|
                    0 <= j < i ==> (#[trigger] cells@[j]).column@ == self.column(j) && cells@[j].value
                        == record@[j],
            decreases record@.len() - i,
        {
            let column = if i == self.key_index {
                self.key_column.clone()
            } else {
                self.fields[i].name.clone()
            };
            cells.push(Cell { column, value: record.values[i].duplicate() });
            i = i + 1;
        }
        let r = Row { cells };
        assert(r@ =~= row_of(*self, record@));
        r
    }

    /// Reads a record from a row: for each field, the first cell under its
    /// column, converted to the field's type. `None` where a column is
    /// missing or holds a value that the field's type does not accept.
    pub fn read_row(&self, row: &Row) -> (r: Option<Record>)
        requires
            self.wf(),
        ensures
            r is Some <==> row_readable(*self, row@),
            r is Some ==> read_from(*self, row@, r->0@) && conforms(*self, r->0@),
    {
        let mut values: Vec<FieldValue> = Vec::new();
        let mut i: usize = 0;
        while i < self.fields.len()
            invariant
                self.wf(),
                i <= self.fields@.len(),
                values@.len() == i,
                forall|j: int| 0 <= j < i ==> #[trigger] field_readable(*self, row@, j),
                forall|j: int|
                    0 <= j < i ==> #[trigger] conformed(
                        self.fields@[j].field_type,
                        cell_for(row@, self.column(j))->0,
                        values@[j],
                    ),
                forall|j: int|
                    0 <= j < i ==> crate::value::type_of(#[trigger] values@[j])
                        == self.fields@[j].field_type,
            decreases self.fields@.len() - i,
        {
            let column = if i == self.key_index {
                &self.key_column
            } else {
                &self.fields[i].name
            };
            let cell = match row.get(column) {
                Some(v) => v,
                None => {
                    assert(!field_readable(*self, row@, i as int));
                    return None;
                },
            };
            let v = match cell.conform(self.fields[i].field_type) {
                Some(v) => v,
                None => {
                    assert(!field_readable(*self, row@, i as int));
                    return None;
                },
            };
            values.push(v);
            i = i + 1;
        }
        Some(Record { values })
    }
}

} // verus!
