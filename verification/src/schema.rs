//! The schema data model: named, typed fields in declaration order.

use vstd::prelude::*;

verus! {

/// The type of a record field, as far as builder generation distinguishes
/// types: an integer field or a string field.
#[derive(Clone, Copy, PartialEq, Eq, Structural, Debug)]
pub enum TypeDesc {
    Int,
    Str,
}

/// A runtime value that can occupy a field slot.
#[derive(Debug, PartialEq, Eq)]
pub enum Value {
    IntVal(i64),
    StrVal(String),
}

impl Clone for Value {
    /// Cloning yields an equal value.
    fn clone(&self) -> (res: Self)
        ensures
            res == *self,
    {
        match self {
            Value::IntVal(i) => Value::IntVal(*i),
            Value::StrVal(s) => Value::StrVal(s.clone()),
        }
    }
}

/// One named, typed field of a record schema.
#[derive(Debug)]
pub struct FieldSpec {
    pub name: String,
    pub ty: TypeDesc,
}

impl Clone for FieldSpec {
    /// Cloning yields an equal field description.
    fn clone(&self) -> (res: Self)
        ensures
            res == *self,
    {
        FieldSpec { name: self.name.clone(), ty: self.ty }
    }
}

/// An ordered record schema: the origin type's name and its fields, in
/// declaration order. Field-name uniqueness is guaranteed by whatever
/// produced the schema; `wf` records that assumption.
#[derive(Debug)]
pub struct TypeSchema {
    pub name: String,
    pub fields: Vec<FieldSpec>,
}

impl TypeSchema {
    /// Structural validity: field names are pairwise distinct.
    pub open spec fn wf(&self) -> bool {
        names_unique(self.fields@)
    }
}

/// Field names are pairwise distinct.
pub open spec fn names_unique(fields: Seq<FieldSpec>) -> bool {
    forall|i: int, j: int| 0 <= i < j < fields.len() ==> fields[i].name@ != fields[j].name@
}

/// Some field of `fields` is named `name`.
pub open spec fn has_field(fields: Seq<FieldSpec>, name: Seq<char>) -> bool {
    exists|i: int| 0 <= i < fields.len() && fields[i].name@ == name
}

/// Index of the first field named `name`; total, and meaningful only when
/// `has_field(fields, name)` holds.
pub open spec fn idx_of(fields: Seq<FieldSpec>, name: Seq<char>) -> int
    decreases fields.len(),
{
    if fields.len() == 0 {
        0
    } else if fields[0].name@ == name {
        0
    } else {
        1 + idx_of(fields.drop_first(), name)
    }
}

/// When a field named `name` exists, `idx_of` is in bounds, names that
/// field, and no earlier field carries the name.
pub proof fn lemma_idx_of_props(fields: Seq<FieldSpec>, name: Seq<char>)
    requires
        has_field(fields, name),
    ensures
        0 <= idx_of(fields, name) < fields.len(),
        fields[idx_of(fields, name)].name@ == name,
        forall|j: int| 0 <= j < idx_of(fields, name) ==> fields[j].name@ != name,
    decreases fields.len(),
{
    if fields[0].name@ == name {
    } else {
        let w = choose|i: int| 0 <= i < fields.len() && fields[i].name@ == name;
        assert(fields.drop_first()[w - 1] == fields[w]);
        assert(has_field(fields.drop_first(), name));
        lemma_idx_of_props(fields.drop_first(), name);
        assert forall|j: int| 0 <= j < idx_of(fields, name) implies fields[j].name@ != name by {
            if j > 0 {
                assert(fields.drop_first()[j - 1] == fields[j]);
            }
        }
    }
}

/// With unique names, `idx_of` finds exactly the one field carrying `name`.
pub proof fn lemma_idx_of_unique(fields: Seq<FieldSpec>, name: Seq<char>, i: int)
    requires
        names_unique(fields),
        0 <= i < fields.len(),
        fields[i].name@ == name,
    ensures
        idx_of(fields, name) == i,
{
    assert(has_field(fields, name));
    lemma_idx_of_props(fields, name);
}

} // verus!
