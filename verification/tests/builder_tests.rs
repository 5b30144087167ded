use builder::runtime::{BuildError, Builder, Record};
use builder::schema::{FieldSpec, TypeDesc, TypeSchema, Value};
use builder::synth::synthesize;

fn two_field_schema() -> TypeSchema {
    TypeSchema {
        name: "Foo".to_string(),
        fields: vec![
            FieldSpec { name: "id".to_string(), ty: TypeDesc::Int },
            FieldSpec { name: "label".to_string(), ty: TypeDesc::Str },
        ],
    }
}

fn three_field_schema() -> TypeSchema {
    TypeSchema {
        name: "Job".to_string(),
        fields: vec![
            FieldSpec { name: "a".to_string(), ty: TypeDesc::Int },
            FieldSpec { name: "b".to_string(), ty: TypeDesc::Str },
            FieldSpec { name: "c".to_string(), ty: TypeDesc::Int },
        ],
    }
}

fn fresh(schema: &TypeSchema) -> Builder {
    synthesize(schema).instantiate()
}

fn field_values(rec: &Record) -> Vec<(String, Value)> {
    rec.fields.iter().map(|f| (f.name.clone(), f.value.clone())).collect()
}

#[test]
fn synthesize_names_builder_with_suffix() {
    let code = synthesize(&two_field_schema());
    assert_eq!(code.builder_type_name, "FooBuilder");
}

#[test]
fn synthesize_lists_fields_in_order() {
    let code = synthesize(&two_field_schema());
    assert_eq!(code.slots.len(), 2);
    assert_eq!(code.slots[0].name, "id");
    assert_eq!(code.slots[0].ty, TypeDesc::Int);
    assert_eq!(code.slots[1].name, "label");
    assert_eq!(code.slots[1].ty, TypeDesc::Str);
    assert_eq!(code.setters.len(), 2);
    assert_eq!(code.setters[0].field_name, "id");
    assert_eq!(code.setters[0].value_type, TypeDesc::Int);
    assert_eq!(code.setters[1].field_name, "label");
    assert_eq!(code.setters[1].value_type, TypeDesc::Str);
    assert_eq!(code.build_op.check_order, vec!["id".to_string(), "label".to_string()]);
}

#[test]
fn scenario_build_without_setters_reports_id() {
    let b = fresh(&two_field_schema());
    match b.build() {
        Ok(_) => panic!("build succeeded on a fresh builder"),
        Err(e) => assert_eq!(e, BuildError::MissingField("id".to_string())),
    }
}

#[test]
fn scenario_build_with_only_id_reports_label() {
    let b = fresh(&two_field_schema()).set_field(&"id".to_string(), Value::IntVal(5));
    match b.build() {
        Ok(_) => panic!("build succeeded with label unset"),
        Err(e) => assert_eq!(e, BuildError::MissingField("label".to_string())),
    }
}

#[test]
fn scenario_build_with_both_fields_succeeds() {
    let b = fresh(&two_field_schema())
        .set_field(&"id".to_string(), Value::IntVal(5))
        .set_field(&"label".to_string(), Value::StrVal("x".to_string()));
    let rec = b.build().unwrap();
    assert_eq!(
        field_values(&rec),
        vec![
            ("id".to_string(), Value::IntVal(5)),
            ("label".to_string(), Value::StrVal("x".to_string())),
        ]
    );
}

#[test]
fn scenario_setter_order_does_not_matter() {
    let forward = fresh(&two_field_schema())
        .set_field(&"id".to_string(), Value::IntVal(5))
        .set_field(&"label".to_string(), Value::StrVal("x".to_string()));
    let backward = fresh(&two_field_schema())
        .set_field(&"label".to_string(), Value::StrVal("x".to_string()))
        .set_field(&"id".to_string(), Value::IntVal(5));
    let rec_f = forward.build().unwrap();
    let rec_b = backward.build().unwrap();
    assert_eq!(field_values(&rec_f), field_values(&rec_b));
    assert_eq!(
        field_values(&rec_f),
        vec![
            ("id".to_string(), Value::IntVal(5)),
            ("label".to_string(), Value::StrVal("x".to_string())),
        ]
    );
}

#[test]
fn all_setter_permutations_yield_last_values() {
    let schema = three_field_schema();
    let calls: Vec<(String, Value)> = vec![
        ("a".to_string(), Value::IntVal(1)),
        ("b".to_string(), Value::StrVal("two".to_string())),
        ("c".to_string(), Value::IntVal(3)),
    ];
    let orders: Vec<[usize; 3]> = vec![
        [0, 1, 2],
        [0, 2, 1],
        [1, 0, 2],
        [1, 2, 0],
        [2, 0, 1],
        [2, 1, 0],
    ];
    for order in orders {
        let mut b = fresh(&schema);
        for k in order {
            let (name, value) = &calls[k];
            b = b.set_field(name, value.clone());
        }
        let rec = b.build().unwrap();
        assert_eq!(
            field_values(&rec),
            vec![
                ("a".to_string(), Value::IntVal(1)),
                ("b".to_string(), Value::StrVal("two".to_string())),
                ("c".to_string(), Value::IntVal(3)),
            ]
        );
    }
}

#[test]
fn earliest_unset_field_is_reported() {
    let schema = three_field_schema();
    let b = fresh(&schema).set_field(&"c".to_string(), Value::IntVal(3));
    match b.build() {
        Ok(_) => panic!("build succeeded with a and b unset"),
        Err(e) => assert_eq!(e, BuildError::MissingField("a".to_string())),
    }
    let b = fresh(&schema)
        .set_field(&"a".to_string(), Value::IntVal(1))
        .set_field(&"c".to_string(), Value::IntVal(3));
    match b.build() {
        Ok(_) => panic!("build succeeded with b unset"),
        Err(e) => assert_eq!(e, BuildError::MissingField("b".to_string())),
    }
}

#[test]
fn repeated_setter_keeps_last_value() {
    let b = fresh(&two_field_schema())
        .set_field(&"id".to_string(), Value::IntVal(1))
        .set_field(&"id".to_string(), Value::IntVal(2))
        .set_field(&"label".to_string(), Value::StrVal("x".to_string()))
        .set_field(&"id".to_string(), Value::IntVal(3));
    let rec = b.build().unwrap();
    assert_eq!(
        field_values(&rec),
        vec![
            ("id".to_string(), Value::IntVal(3)),
            ("label".to_string(), Value::StrVal("x".to_string())),
        ]
    );
}

#[test]
fn empty_schema_always_builds_empty_record() {
    let schema = TypeSchema { name: "Unit".to_string(), fields: vec![] };
    let code = synthesize(&schema);
    assert_eq!(code.builder_type_name, "UnitBuilder");
    assert!(code.slots.is_empty());
    assert!(code.setters.is_empty());
    assert!(code.build_op.check_order.is_empty());
    let rec = code.instantiate().build().unwrap();
    assert!(rec.fields.is_empty());
}

#[test]
fn missing_field_message_names_the_field() {
    let b = fresh(&two_field_schema());
    let err = b.build().unwrap_err();
    assert_eq!(err.message(), "id not set");
}
