//! The synthesizer: a pure map from a record schema to a description of the
//! builder artifacts to emit.

use vstd::prelude::*;
use crate::schema::{FieldSpec, TypeDesc, TypeSchema};

verus! {

/// One setter to emit: it takes a value of `value_type` and stores it in the
/// slot of `field_name`.
#[derive(Debug)]
pub struct SetterOp {
    pub field_name: String,
    pub value_type: TypeDesc,
}

/// The validating build step to emit: it inspects the slots named in
/// `check_order`, in that order, and fails at the first unset one.
#[derive(Debug)]
pub struct BuildOp {
    pub check_order: Vec<String>,
}

/// Everything an emitter needs to render the builder companion of one record
/// type: the builder type's name, its slots, one setter per field, and the
/// build step.
#[derive(Debug)]
pub struct GeneratedBuilderCode {
    pub builder_type_name: String,
    pub slots: Vec<FieldSpec>,
    pub setters: Vec<SetterOp>,
    pub build_op: BuildOp,
}

/// The builder type's name: the origin type's name with a fixed suffix.
pub open spec fn builder_name_of(origin_name: Seq<char>) -> Seq<char> {
    origin_name + "Builder"@
}

/// Derives the builder description for `schema` in one pass over its fields:
/// the builder type name carries the fixed suffix, and slots, setters and
/// build checks all list the schema's fields, in declaration order, with
/// nothing added and nothing dropped.
pub fn synthesize(schema: &TypeSchema) -> (out: GeneratedBuilderCode)
    ensures
        out.builder_type_name@ == builder_name_of(schema.name@),
        out.slots@ == schema.fields@,
        out.setters@.len() == schema.fields@.len(),
        forall|i: int| 0 <= i < schema.fields@.len() ==> {
            &&& (#[trigger] out.setters@[i]).field_name == schema.fields@[i].name
            &&& out.setters@[i].value_type == schema.fields@[i].ty
        },
        out.build_op.check_order@.len() == schema.fields@.len(),
        forall|i: int| 0 <= i < schema.fields@.len() ==> #[trigger] out.build_op.check_order@[i]
            == schema.fields@[i].name,
{
    let builder_type_name = schema.name.clone().concat("Builder");
    let mut slots: Vec<FieldSpec> = Vec::new();
    let mut setters: Vec<SetterOp> = Vec::new();
    let mut check_order: Vec<String> = Vec::new();
    let n = schema.fields.len();
    let mut i: usize = 0;
    while i < n
        invariant
            n == schema.fields@.len(),
            i <= n,
            slots@.len() == i as int,
            setters@.len() == i as int,
            check_order@.len() == i as int,
            forall|j: int| 0 <= j < i as int ==> #[trigger] slots@[j] == schema.fields@[j],
            forall|j: int| 0 <= j < i as int ==> {
                &&& (#[trigger] setters@[j]).field_name == schema.fields@[j].name
                &&& setters@[j].value_type == schema.fields@[j].ty
            },
            forall|j: int| 0 <= j < i as int ==> #[trigger] check_order@[j]
                == schema.fields@[j].name,
        decreases n - i,
    {
        let f = &schema.fields[i];
        slots.push(f.clone());
        setters.push(SetterOp { field_name: f.name.clone(), value_type: f.ty });
        check_order.push(f.name.clone());
        i += 1;
    }
    proof {
        assert(slots@ =~= schema.fields@);
    }
    GeneratedBuilderCode {
        builder_type_name,
        slots,
        setters,
        build_op: BuildOp { check_order },
    }
}

} // verus!
