//! The runtime behavior of a generated builder: per-field slots that start
//! unset, last-write-wins setters, and a validating build step.

use vstd::prelude::*;
use crate::schema::{FieldSpec, Value, has_field, idx_of, lemma_idx_of_props, names_unique};
use crate::synth::GeneratedBuilderCode;

verus! {

/// Every slot holds a value.
pub open spec fn all_set(slots: Seq<Option<Value>>) -> bool {
    forall|i: int| 0 <= i < slots.len() ==> (#[trigger] slots[i]) is Some
}

/// Index of the first unset slot; total, and meaningful only when some slot
/// is unset.
pub open spec fn first_unset(slots: Seq<Option<Value>>) -> int
    decreases slots.len(),
{
    if slots.len() == 0 {
        0
    } else if slots[0] is None {
        0
    } else {
        1 + first_unset(slots.drop_first())
    }
}

/// The slot state of a freshly constructed builder: `n` unset slots.
pub open spec fn fresh_slots(n: nat) -> Seq<Option<Value>> {
    Seq::new(n, |i: int| None)
}

/// A slot that is unset, while every earlier slot is set, is the one
/// `first_unset` points at.
pub proof fn lemma_first_unset_at(slots: Seq<Option<Value>>, k: int)
    requires
        0 <= k < slots.len(),
        slots[k] is None,
        forall|j: int| 0 <= j < k ==> (#[trigger] slots[j]) is Some,
    ensures
        !all_set(slots),
        first_unset(slots) == k,
    decreases k,
{
    if k == 0 {
    } else {
        assert(slots[0] is Some);
        let rest = slots.drop_first();
        assert(rest[k - 1] == slots[k]);
        assert forall|j: int| 0 <= j < k - 1 implies (#[trigger] rest[j]) is Some by {
            assert(rest[j] == slots[j + 1]);
        }
        lemma_first_unset_at(rest, k - 1);
    }
}

/// One field of a finished record: its name and the value it was built with.
#[derive(Debug)]
pub struct RecordField {
    pub name: String,
    pub value: Value,
}

/// A fully populated record, fields in schema declaration order.
#[derive(Debug)]
pub struct Record {
    pub fields: Vec<RecordField>,
}

/// The build step's only failure: the named field was never set.
#[derive(Debug, PartialEq, Eq)]
pub enum BuildError {
    MissingField(String),
}

impl BuildError {
    /// The name of the field the build step reported as unset.
    pub open spec fn missing_name(&self) -> Seq<char> {
        match self {
            BuildError::MissingField(n) => n@,
        }
    }

    /// A human-readable description of the failure.
    pub fn message(&self) -> (msg: String)
        ensures
            msg@ == self.missing_name() + " not set"@,
    {
        match self {
            BuildError::MissingField(n) => n.clone().concat(" not set"),
        }
    }
}

/// A builder instance: the schema's fields, and one slot per field, each
/// either unset or holding the last value set for it.
#[derive(Debug)]
pub struct Builder {
    pub fields: Vec<FieldSpec>,
    pub slots: Vec<Option<Value>>,
}

impl Builder {
    /// One slot per field, and field names unique (guaranteed by the schema
    /// producer).
    pub open spec fn wf(&self) -> bool {
        &&& self.slots@.len() == self.fields@.len()
        &&& names_unique(self.fields@)
    }
}

impl GeneratedBuilderCode {
    /// Constructs a fresh builder instance of the described builder type:
    /// same fields, every slot unset.
    pub fn instantiate(&self) -> (b: Builder)
        requires
            names_unique(self.slots@),
        ensures
            b.wf(),
            b.fields@ == self.slots@,
            b.slots@ == fresh_slots(self.slots@.len()),
    {
        let mut fields: Vec<FieldSpec> = Vec::new();
        let mut slots: Vec<Option<Value>> = Vec::new();
        let n = self.slots.len();
        let mut i: usize = 0;
        while i < n
            invariant
                n == self.slots@.len(),
                i <= n,
                fields@.len() == i as int,
                slots@.len() == i as int,
                forall|j: int| 0 <= j < i as int ==> #[trigger] fields@[j] == self.slots@[j],
                forall|j: int| 0 <= j < i as int ==> #[trigger] slots@[j] is None,
            decreases n - i,
        {
            fields.push(self.slots[i].clone());
            slots.push(None);
            i += 1;
        }
        proof {
            assert(fields@ =~= self.slots@);
            assert(slots@ =~= fresh_slots(self.slots@.len()));
        }
        Builder { fields, slots }
    }
}

/// Index of the first field of `fields` named `name`, if any: `Some` exactly
/// when such a field exists, and then the least matching index.
pub fn find_field(fields: &Vec<FieldSpec>, name: &String) -> (r: Option<usize>)
    ensures
        match r {
            Some(i) => {
                &&& (i as int) < fields@.len()
                &&& fields@[i as int].name@ == name@
                &&& forall|j: int| 0 <= j < i as int ==> (#[trigger] fields@[j]).name@ != name@
                &&& idx_of(fields@, name@) == i as int
            },
            None => !has_field(fields@, name@),
        },
{
    let n = fields.len();
    let mut i: usize = 0;
    while i < n
        invariant
            n == fields@.len(),
            i <= n,
            forall|j: int| 0 <= j < i as int ==> (#[trigger] fields@[j]).name@ != name@,
        decreases n - i,
    {
        if fields[i].name == *name {
            proof {
                lemma_idx_of_props(fields@, name@);
            }
            return Some(i);
        }
        i += 1;
    }
    None
}

impl Builder {
    /// The setter: stores `value` in the slot of the field named `name`,
    /// overwriting any earlier value, and returns the builder for chaining.
    /// Every other slot is untouched.
    pub fn set_field(self, name: &String, value: Value) -> (out: Builder)
        requires
            self.wf(),
            has_field(self.fields@, name@),
        ensures
            out.wf(),
            out.fields@ == self.fields@,
            out.slots@ == self.slots@.update(idx_of(self.fields@, name@), Some(value)),
    {
        let mut out = self;
        match find_field(&out.fields, name) {
            Some(i) => {
                out.slots.set(i, Some(value));
                out
            },
            None => unreached(),
        }
    }

    /// The build step: inspects the slots in field-declaration order. If one
    /// is unset it fails at once, naming the first unset field; otherwise it
    /// yields the record populated with each slot's value.
    pub fn build(&self) -> (r: Result<Record, BuildError>)
        requires
            self.wf(),
        ensures
            match r {
                Ok(rec) => {
                    &&& all_set(self.slots@)
                    &&& rec.fields@.len() == self.fields@.len()
                    &&& forall|i: int| 0 <= i < self.fields@.len() ==> {
                        &&& (#[trigger] rec.fields@[i]).name == self.fields@[i].name
                        &&& Some(rec.fields@[i].value) == self.slots@[i]
                    }
                },
                Err(e) => {
                    &&& !all_set(self.slots@)
                    &&& e.missing_name() == self.fields@[first_unset(self.slots@)].name@
                },
            },
    {
        let mut done: Vec<RecordField> = Vec::new();
        let n = self.fields.len();
        let mut i: usize = 0;
        while i < n
            invariant
                self.wf(),
                n == self.fields@.len(),
                i <= n,
                done@.len() == i as int,
                forall|j: int| 0 <= j < i as int ==> (#[trigger] self.slots@[j]) is Some,
                forall|j: int| 0 <= j < i as int ==> {
                    &&& (#[trigger] done@[j]).name == self.fields@[j].name
                    &&& Some(done@[j].value) == self.slots@[j]
                },
            decreases n - i,
        {
            match &self.slots[i] {
                Some(v) => {
                    done.push(RecordField { name: self.fields[i].name.clone(), value: v.clone() });
                },
                None => {
                    proof {
                        lemma_first_unset_at(self.slots@, i as int);
                    }
                    return Err(BuildError::MissingField(self.fields[i].name.clone()));
                },
            }
            i += 1;
        }
        Ok(Record { fields: done })
    }
}

} // verus!
