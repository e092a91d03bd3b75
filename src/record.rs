use vstd::prelude::*;
use crate::schema::Schema;
use crate::value::{FieldValue, type_of};

verus! {

/// A record: one value per schema field, in declaration order.
#[derive(Clone, Debug, PartialEq, Eq)]
pub struct Record {
    pub values: Vec<FieldValue>,
}

/// A partial record: one optional slot per schema field. An empty slot
/// leaves its field alone when the partial is applied.
#[derive(Clone, Debug, PartialEq, Eq)]
pub struct PartialRecord {
    pub slots: Vec<Option<FieldValue>>,
}

impl View for Record {
    type V = Seq<FieldValue>;

    open spec fn view(&self) -> Seq<FieldValue> {
        self.values@
    }
}

impl View for PartialRecord {
    type V = Seq<Option<FieldValue>>;

    open spec fn view(&self) -> Seq<Option<FieldValue>> {
        self.slots@
    }
}

/// The record has one value of the declared type for each field.
pub open spec fn conforms(s: Schema, r: Seq<FieldValue>) -> bool {
    &&& r.len() == s.fields@.len()
    &&& forall|i: int| 0 <= i < r.len() ==> type_of(#[trigger] r[i]) == s.fields@[i].field_type
}

/// The partial has one slot for each field, and every populated slot holds
/// a value of the declared type.
pub open spec fn partial_conforms(s: Schema, p: Seq<Option<FieldValue>>) -> bool {
    &&& p.len() == s.fields@.len()
    &&& forall|i: int|
        0 <= i < p.len() && (#[trigger] p[i]) is Some ==> type_of(p[i]->0) == s.fields@[i].field_type
}

/// A partial with every slot empty.
pub open spec fn empty_partial(n: nat) -> Seq<Option<FieldValue>> {
    Seq::new(n, |i: int| None)
}

/// A partial with every slot populated from `r`.
pub open spec fn partial_of(r: Seq<FieldValue>) -> Seq<Option<FieldValue>> {
    r.map_values(|v: FieldValue| Some(v))
}

/// `r` with each field that `p` populates overwritten by `p`'s value.
pub open spec fn applied(p: Seq<Option<FieldValue>>, r: Seq<FieldValue>) -> Seq<FieldValue> {
    Seq::new(
        r.len(),
        |i: int|
            if p[i] is Some {
                p[i]->0
            } else {
                r[i]
            },
    )
}

/// The primary-key slot of a partial.
pub open spec fn partial_key(s: Schema, p: Seq<Option<FieldValue>>) -> Option<FieldValue> {
    p[s.key_index as int]
}

impl Record {
    /// The primary-key value of the record.
    pub fn primary_key<'a>(&'a self, schema: &Schema) -> (r: &'a FieldValue)
        requires
            schema.wf(),
            conforms(*schema, self@),
        ensures
            *r == self@[schema.key_index as int],
    {
        &self.values[schema.key_index]
    }

    /// A partial with every slot populated by a copy of this record's value.
    pub fn to_partial(&self) -> (p: PartialRecord)
        ensures
            p@ == partial_of(self@),
    {
        let mut slots: Vec<Option<FieldValue>> = Vec::new();
        let mut i: usize = 0;
        while i < self.values.len()
            invariant
                i <= self@.len(),
                slots@ == partial_of(self@).subrange(0, i as int),
            decreases self@.len() - i,
        {
            slots.push(Some(self.values[i].duplicate()));
            i = i + 1;
            assert(slots@ =~= partial_of(self@).subrange(0, i as int));
        }
        assert(slots@ =~= partial_of(self@));
        PartialRecord { slots }
    }
}

impl PartialRecord {
    /// A partial of the schema's shape with every slot empty.
    pub fn new(schema: &Schema) -> (p: PartialRecord)
        ensures
            p@ == empty_partial(schema.fields@.len()),
            partial_conforms(*schema, p@),
    {
        let mut slots: Vec<Option<FieldValue>> = Vec::new();
        let mut i: usize = 0;
        while i < schema.fields.len()
            invariant
                i <= schema.fields@.len(),
                slots@ == empty_partial(i as nat),
            decreases schema.fields@.len() - i,
        {
            slots.push(None);
            i = i + 1;
            assert(slots@ =~= empty_partial(i as nat));
        }
        PartialRecord { slots }
    }

    /// Populates slot `i` with `v`.
    pub fn set(&mut self, i: usize, v: FieldValue)
        requires
            i < old(self)@.len(),
        ensures
            final(self)@ == old(self)@.update(i as int, Some(v)),
    {
        self.slots.set(i, Some(v));
    }

    /// Empties slot `i`.
    pub fn clear(&mut self, i: usize)
        requires
            i < old(self)@.len(),
        ensures
            final(self)@ == old(self)@.update(i as int, None),
    {
        self.slots.set(i, None);
    }

    /// The primary-key slot: the key value if populated, else `None`.
    pub fn primary_key(&self, schema: &Schema) -> (r: Option<FieldValue>)
        requires
            schema.wf(),
            partial_conforms(*schema, self@),
        ensures
            r == partial_key(*schema, self@),
    {
        match &self.slots[schema.key_index] {
            Some(v) => Some(v.duplicate()),
            None => None,
        }
    }

    /// Overwrites, in place, each field of `target` whose slot is populated.
    pub fn apply_in_place(&self, target: &mut Record)
        requires
            self@.len() == old(target)@.len(),
        ensures
            final(target)@ == applied(self@, old(target)@),
    {
        let mut i: usize = 0;
        while i < self.slots.len()
            invariant
                i <= self@.len(),
                self@.len() == old(target)@.len(),
                target@.len() == old(target)@.len(),
                forall|j: int| 0 <= j < i ==> target@[j] == applied(self@, old(target)@)[j],
                forall|j: int| i <= j < target@.len() ==> target@[j] == old(target)@[j],
            decreases self@.len() - i,
        {
            if let Some(v) = &self.slots[i] {
                target.values.set(i, v.duplicate());
            }
            i = i + 1;
        }
        assert(target@ =~= applied(self@, old(target)@));
    }

    /// A copy of `original` with each field whose slot is populated
    /// overwritten by the slot's value.
    pub fn apply_to(&self, original: &Record) -> (r: Record)
        requires
            self@.len() == original@.len(),
        ensures
            r@ == applied(self@, original@),
    {
        let mut r = Record { values: Vec::new() };
        let mut i: usize = 0;
        while i < original.values.len()
            invariant
                i <= original@.len(),
                r@ == original@.subrange(0, i as int),
            decreases original@.len() - i,
        {
            r.values.push(original.values[i].duplicate());
            i = i + 1;
            assert(r@ =~= original@.subrange(0, i as int));
        }
        assert(r@ =~= original@);
        self.apply_in_place(&mut r);
        r
    }
}

/// A partial taken from a record reports that record's key as its primary
/// key.
pub proof fn lemma_to_partial_keeps_key(s: Schema, r: Seq<FieldValue>)
    requires
        s.wf(),
        conforms(s, r),
    ensures
        partial_key(s, partial_of(r)) == Some(r[s.key_index as int]),
{
}

/// Applying a partial whose key slot is empty and whose other slots are all
/// populated keeps the target's key and takes every other field from the
/// partial.
pub proof fn lemma_apply_without_key(s: Schema, p: Seq<Option<FieldValue>>, r: Seq<FieldValue>)
    requires
        s.wf(),
        partial_conforms(s, p),
        conforms(s, r),
        p[s.key_index as int] is None,
        forall|i: int| 0 <= i < p.len() && i != s.key_index ==> (#[trigger] p[i]) is Some,
    ensures
        applied(p, r)[s.key_index as int] == r[s.key_index as int],
        forall|i: int|
            0 <= i < r.len() && i != s.key_index ==> #[trigger] applied(p, r)[i] == p[i]->0,
        conforms(s, applied(p, r)),
{
}

/// A new partial has every slot empty, its key slot included.
pub proof fn lemma_new_partial_is_empty(s: Schema)
    requires
        s.wf(),
    ensures
        forall|i: int| 0 <= i < s.fields@.len() ==> (#[trigger] empty_partial(s.fields@.len())[i]) is None,
        partial_key(s, empty_partial(s.fields@.len())) is None,
{
}

/// Applying the partial of a record to any record of the same shape yields
/// the first record.
pub proof fn lemma_round_trip(r: Seq<FieldValue>, r2: Seq<FieldValue>)
    requires
        r.len() == r2.len(),
    ensures
        applied(partial_of(r), r2) == r,
{
    assert(applied(partial_of(r), r2) =~= r);
}

/// Applying a partial that conforms to the schema keeps a record
/// conforming.
pub proof fn lemma_applied_conforms(s: Schema, p: Seq<Option<FieldValue>>, r: Seq<FieldValue>)
    requires
        partial_conforms(s, p),
        conforms(s, r),
    ensures
        conforms(s, applied(p, r)),
{
}

/// The partial of a conforming record conforms.
pub proof fn lemma_partial_of_conforms(s: Schema, r: Seq<FieldValue>)
    requires
        conforms(s, r),
    ensures
        partial_conforms(s, partial_of(r)),
{
}

} // verus!
