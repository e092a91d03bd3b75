use vstd::prelude::*;
use vstd::string::*;
use crate::value::{FieldType, FieldValue, type_of};

verus! {

/// How a declared field is marked as the primary key.
#[derive(Debug, PartialEq, Eq)]
pub enum KeyMark {
    Unmarked,
    /// Marked, with the field's own name as the column name.
    Marked,
    /// Marked, with an explicit column name.
    MarkedAs(String),
}

/// One field of a record type, as declared.
#[derive(Debug, PartialEq, Eq)]
pub struct FieldDecl {
    pub name: String,
    pub field_type: FieldType,
    pub key_mark: KeyMark,
}

/// A record type as declared: its name, its fields in order, and the
/// annotations on the type.
#[derive(Debug, PartialEq, Eq)]
pub struct RecordDecl {
    pub record_name: String,
    pub table_name: Option<String>,
    pub partial_name: Option<String>,
    pub fields: Vec<FieldDecl>,
}

/// One field of a schema.
#[derive(Debug, PartialEq, Eq)]
pub struct Field {
    pub name: String,
    pub field_type: FieldType,
}

/// The normalized description of a record type that the partial and CRUD
/// operations work from.
#[derive(Debug, PartialEq, Eq)]
pub struct Schema {
    pub record_name: String,
    pub table_name: String,
    pub fields: Vec<Field>,
    pub key_index: usize,
    pub key_column: String,
    pub partial_type_name: String,
}

#[derive(Clone, Copy, Debug, PartialEq, Eq, Structural)]
pub enum SchemaError {
    MissingTableName,
    MissingPrimaryKey,
}

pub open spec fn id_name() -> Seq<char> {
    seq!['i', 'd']
}

pub open spec fn partial_prefix() -> Seq<char> {
    seq!['P', 'a', 'r', 't', 'i', 'a', 'l']
}

pub open spec fn is_marked(f: FieldDecl) -> bool {
    !(f.key_mark is Unmarked)
}

pub open spec fn is_named_id(f: FieldDecl) -> bool {
    f.name@ == id_name()
}

pub open spec fn has_marked(fields: Seq<FieldDecl>) -> bool {
    exists|i: int| 0 <= i < fields.len() && is_marked(#[trigger] fields[i])
}

pub open spec fn has_id(fields: Seq<FieldDecl>) -> bool {
    exists|i: int| 0 <= i < fields.len() && is_named_id(#[trigger] fields[i])
}

/// Field `i` is the primary key: the first marked field, or, where no
/// field is marked, the first field named `id`.
pub open spec fn is_key_field(fields: Seq<FieldDecl>, i: int) -> bool {
    &&& 0 <= i < fields.len()
    &&& if has_marked(fields) {
        is_marked(fields[i]) && forall|j: int| 0 <= j < i ==> !is_marked(#[trigger] fields[j])
    } else {
        is_named_id(fields[i]) && forall|j: int| 0 <= j < i ==> !is_named_id(#[trigger] fields[j])
    }
}

/// The column name of a key field: the mark's own, else the field's name.
pub open spec fn key_column_of(f: FieldDecl) -> Seq<char> {
    match f.key_mark {
        KeyMark::MarkedAs(c) => c@,
        _ => f.name@,
    }
}

pub open spec fn partial_name_of(d: RecordDecl) -> Seq<char> {
    match d.partial_name {
        Some(p) => p@,
        None => partial_prefix() + d.record_name@,
    }
}

/// `s` is the schema that `d` describes.
pub open spec fn describes(d: RecordDecl, s: Schema) -> bool {
    &&& d.table_name is Some
    &&& s.table_name@ == d.table_name->0@
    &&& s.record_name@ == d.record_name@
    &&& s.fields@.len() == d.fields@.len()
    &&& forall|i: int|
        0 <= i < s.fields@.len() ==> (#[trigger] s.fields@[i]).name@ == d.fields@[i].name@
            && s.fields@[i].field_type == d.fields@[i].field_type
    &&& is_key_field(d.fields@, s.key_index as int)
    &&& s.key_column@ == key_column_of(d.fields@[s.key_index as int])
    &&& s.partial_type_name@ == partial_name_of(d)
}

impl Schema {
    pub open spec fn wf(&self) -> bool {
        self.key_index < self.fields@.len()
    }

    /// The backend column that field `i` is stored in.
    pub open spec fn column(&self, i: int) -> Seq<char> {
        if i == self.key_index {
            self.key_column@
        } else {
            self.fields@[i].name@
        }
    }

    /// Checks that the key index designates a field.
    pub fn is_well_formed(&self) -> (r: bool)
        ensures
            r == self.wf(),
    {
        self.key_index < self.fields.len()
    }

    /// The index of the first field named `name`.
    pub fn field_index(&self, name: &String) -> (r: Option<usize>)
        ensures
            r is Some ==> r->0 < self.fields@.len() && self.fields@[r->0 as int].name@ == name@
                && forall|j: int| 0 <= j < r->0 ==> (#[trigger] self.fields@[j]).name@ != name@,
            r is None ==> forall|j: int|
                0 <= j < self.fields@.len() ==> (#[trigger] self.fields@[j]).name@ != name@,
    {
        let mut i: usize = 0;
        while i < self.fields.len()
            invariant
                i <= self.fields@.len(),
                forall|j: int| 0 <= j < i ==> (#[trigger] self.fields@[j]).name@ != name@,
            decreases self.fields@.len() - i,
        {
            if self.fields[i].name == *name {
                return Some(i);
            }
            i = i + 1;
        }
        None
    }

    /// Reads a record type's declaration into its schema.
    pub fn extract(decl: &RecordDecl) -> (r: Result<Schema, SchemaError>)
        ensures
            r == Err::<Schema, SchemaError>(SchemaError::MissingTableName) <==> decl.table_name is None,
            r == Err::<Schema, SchemaError>(SchemaError::MissingPrimaryKey) <==> decl.table_name is Some
                && !has_marked(decl.fields@) && !has_id(decl.fields@),
            r is Ok <==> decl.table_name is Some && (has_marked(decl.fields@) || has_id(decl.fields@)),
            r is Ok ==> describes(*decl, r->Ok_0) && r->Ok_0.wf(),
    {
        let table_name = match &decl.table_name {
            Some(t) => t.clone(),
            None => {
                return Err(SchemaError::MissingTableName);
            },
        };
        let key_index = match first_key_field(&decl.fields) {
            Some(k) => k,
            None => {
                return Err(SchemaError::MissingPrimaryKey);
            },
        };
        let key_column = match &decl.fields[key_index].key_mark {
            KeyMark::MarkedAs(c) => c.clone(),
            _ => decl.fields[key_index].name.clone(),
        };
        let partial_type_name = match &decl.partial_name {
            Some(p) => p.clone(),
            None => {
                proof {
                    reveal_strlit("Partial");
                }
                String::from_str("Partial").concat(decl.record_name.as_str())
            },
        };
        let mut fields: Vec<Field> = Vec::new();
        let mut i: usize = 0;
        while i < decl.fields.len()
            invariant
                i <= decl.fields@.len(),
                fields@.len() == i,
                forall|j: int|
                    0 <= j < i ==> (#[trigger] fields@[j]).name@ == decl.fields@[j].name@
                        && fields@[j].field_type == decl.fields@[j].field_type,
            decreases decl.fields@.len() - i,
        {
            fields.push(
                Field { name: decl.fields[i].name.clone(), field_type: decl.fields[i].field_type },
            );
            i = i + 1;
        }
        assert(key_column@ == key_column_of(decl.fields@[key_index as int]));
        assert(partial_type_name@ == partial_name_of(*decl));
        assert(table_name@ == decl.table_name->0@);
        Ok(
            Schema {
                record_name: decl.record_name.clone(),
                table_name,
                fields,
                key_index,
                key_column,
                partial_type_name,
            },
        )
    }
}

/// The index of the primary-key field, if the fields have one.
fn first_key_field(fields: &Vec<FieldDecl>) -> (r: Option<usize>)
    ensures
        r is Some <==> has_marked(fields@) || has_id(fields@),
        r is Some ==> is_key_field(fields@, r->0 as int),
{
    let mut i: usize = 0;
    while i < fields.len()
        invariant
            i <= fields@.len(),
            forall|j: int| 0 <= j < i ==> !is_marked(#[trigger] fields@[j]),
        decreases fields@.len() - i,
    {
        if !matches!(fields[i].key_mark, KeyMark::Unmarked) {
            return Some(i);
        }
        i = i + 1;
    }
    let id = String::from_str("id");
    proof {
        reveal_strlit("id");
    }
    let mut i: usize = 0;
    while i < fields.len()
        invariant
            i <= fields@.len(),
            !has_marked(fields@),
            id@ == id_name(),
            forall|j: int| 0 <= j < i ==> !is_named_id(#[trigger] fields@[j]),
        decreases fields@.len() - i,
    {
        if fields[i].name == id {
            return Some(i);
        }
        i = i + 1;
    }
    None
}

/// A conversion from `T` that fails with an error of type `E`.
pub trait TryFromError<T, E>: Sized {
    fn try_from_err(value: T) -> Result<Self, E>;
}

impl TryFromError<RecordDecl, SchemaError> for Schema {
    fn try_from_err(value: RecordDecl) -> (r: Result<Schema, SchemaError>)
        ensures
            r is Ok <==> value.table_name is Some && (has_marked(value.fields@) || has_id(value.fields@)),
            r is Ok ==> describes(value, r->Ok_0) && r->Ok_0.wf(),
    {
        Schema::extract(&value)
    }
}

} // verus!
