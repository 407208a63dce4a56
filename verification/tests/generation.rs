use comparable::compare::{
    compare_values, describe_value, eval_synth, ChangeValue, DescValue, ScalarChange,
};
use comparable::definition::{generate_desc_type, GenData, GenTypeRef};
use comparable::outputs::{classify, process_schema, ShapeClass};
use comparable::scalar::U8Change;
use comparable::schema::{
    ElemSchema, FieldSchema, GenVis, Scalar, ScalarKind, ShapeData, SynthExpr, TypeAttrs,
    TypeSchema, Value, VariantSchema,
};
use comparable::types::Changed;
use comparable::utils::{variant_name_from_field, FieldSel};

fn fld(name: Option<&str>, ty: ElemSchema) -> FieldSchema {
    FieldSchema {
        name: name.map(str::to_string),
        ty,
        ignored: false,
        synthetics: vec![],
    }
}

fn product(name: &str, named: bool, fields: Vec<FieldSchema>) -> TypeSchema {
    TypeSchema {
        name: name.to_string(),
        vis: GenVis::GPublic,
        attrs: TypeAttrs::new(),
        data: ShapeData::DStruct(named, fields),
    }
}

#[test]
fn test_classify_shapes() {
    assert_eq!(ShapeClass::CUnit, classify(&product("Unit", false, vec![])));
    assert_eq!(
        ShapeClass::CSingleton,
        classify(&product(
            "One",
            false,
            vec![fld(None, ElemSchema::EScalar(ScalarKind::KI32))]
        ))
    );
    assert_eq!(
        ShapeClass::CProduct,
        classify(&product(
            "Two",
            false,
            vec![
                fld(None, ElemSchema::EScalar(ScalarKind::KI32)),
                fld(None, ElemSchema::EScalar(ScalarKind::KI32)),
            ]
        ))
    );
    let ts = TypeSchema {
        name: "Sum".to_string(),
        vis: GenVis::GPublic,
        attrs: TypeAttrs::new(),
        data: ShapeData::DEnum(vec![VariantSchema {
            name: "A".to_string(),
            named: false,
            fields: vec![],
        }]),
    };
    assert_eq!(ShapeClass::CSum, classify(&ts));
}

#[test]
fn test_variant_name_from_field() {
    assert_eq!(
        "SomeInt",
        variant_name_from_field(0, &Some("some_int".to_string()))
    );
    assert_eq!("Field7", variant_name_from_field(7, &None));
    assert_eq!("Field12", variant_name_from_field(12, &None));
}

#[test]
fn test_generate_desc_type_mirror() {
    let ts = product(
        "Foo",
        true,
        vec![
            fld(Some("alpha"), ElemSchema::EScalar(ScalarKind::KBool)),
            fld(Some("beta"), ElemSchema::EList(Box::new(ElemSchema::EScalar(ScalarKind::KBool)))),
        ],
    );
    let def = generate_desc_type(&ts);
    match def.ty {
        Some(GenTypeRef::RNamed(name)) => assert_eq!(name, "FooDesc"),
        other => panic!("unexpected description type reference: {:?}", other),
    }
    let d = def.definition.unwrap();
    assert_eq!(d.name, "FooDesc");
    match d.data {
        GenData::GStruct(named, fs) => {
            assert!(named);
            assert_eq!(2, fs.len());
            assert_eq!(fs[0].name.as_deref(), Some("alpha"));
            assert_eq!(
                fs[0].ty,
                GenTypeRef::RDesc(FieldSel {
                    variant: None,
                    field: 0,
                    synth: None
                })
            );
        }
        other => panic!("unexpected description data: {:?}", other),
    }
}

#[test]
fn test_process_schema_gating() {
    let mut ts = product(
        "Quiet",
        true,
        vec![fld(Some("x"), ElemSchema::EScalar(ScalarKind::KU8))],
    );
    ts.attrs.no_description = true;
    let out = process_schema(&ts);
    assert!(out.desc.is_none());
    assert!(out.change.is_some());
}

#[test]
fn test_describe_record_omits_ignored() {
    let mut hidden = fld(Some("hidden"), ElemSchema::EScalar(ScalarKind::KU8));
    hidden.ignored = true;
    let ts = product(
        "Partial",
        true,
        vec![hidden, fld(Some("shown"), ElemSchema::EScalar(ScalarKind::KU8))],
    );
    let v = Value::VRecord(vec![
        Value::VScalar(Scalar::VU8(9)),
        Value::VScalar(Scalar::VU8(4)),
    ]);
    assert_eq!(
        DescValue::DRecord(vec![DescValue::DScalar(Scalar::VU8(4))]),
        describe_value(&ts, &v)
    );
}

#[test]
fn test_describe_compare_default() {
    let mut ts = product(
        "Sparse",
        true,
        vec![fld(Some("x"), ElemSchema::EScalar(ScalarKind::KU8))],
    );
    ts.attrs.compare_default = true;
    let v = Value::VRecord(vec![Value::VScalar(Scalar::VU8(5))]);
    // The description is the change-set from the default value (x = 0).
    assert_eq!(
        DescValue::DDefault(Box::new(Changed::Changed(ChangeValue::CScalar(
            ScalarChange::CU8(U8Change(0, 5))
        )))),
        describe_value(&ts, &v)
    );
}

#[test]
fn test_nested_composite_field() {
    let inner = product(
        "Inner",
        true,
        vec![fld(Some("x"), ElemSchema::EScalar(ScalarKind::KU8))],
    );
    let ts = product(
        "Outer",
        true,
        vec![
            fld(Some("inner"), ElemSchema::ENested(Box::new(inner))),
            fld(Some("tag"), ElemSchema::EScalar(ScalarKind::KBool)),
        ],
    );
    let v = |x: u8, t: bool| {
        Value::VRecord(vec![
            Value::VRecord(vec![Value::VScalar(Scalar::VU8(x))]),
            Value::VScalar(Scalar::VBool(t)),
        ])
    };
    assert_eq!(Changed::Unchanged, compare_values(&ts, &v(1, true), &v(1, true)));
    // Only the nested field's inner change shows, tagged with the outer field.
    match compare_values(&ts, &v(1, true), &v(2, true)) {
        Changed::Changed(ChangeValue::CFields(es)) => {
            assert_eq!(1, es.len());
            assert_eq!(0, es[0].field);
            assert_eq!(
                ChangeValue::CScalar(ScalarChange::CU8(U8Change(1, 2))),
                *es[0].change
            );
        }
        other => panic!("unexpected comparison: {:?}", other),
    }
}

#[test]
fn test_sum_u8_synthetic_of_empty_list() {
    let fields = vec![Value::VList(vec![])];
    assert_eq!(Scalar::VU8(0), eval_synth(&SynthExpr::SumU8(0), &fields));
    let fields2 = vec![Value::VList(vec![
        Value::VScalar(Scalar::VU8(200)),
        Value::VScalar(Scalar::VU8(100)),
    ])];
    // The sum wraps at the byte boundary: 200 + 100 = 44 modulo 256.
    assert_eq!(Scalar::VU8(44), eval_synth(&SynthExpr::SumU8(0), &fields2));
}
