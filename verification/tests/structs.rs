use comparable::compare::{
    compare_values, describe_value, ChangeValue, DescValue, FieldEntry, ScalarChange,
};
use comparable::definition::{generate_change_type, GenData, GenTypeRef};
use comparable::scalar::{I32Change, U64Change, U8Change};
use comparable::schema::{
    ElemSchema, FieldSchema, GenVis, Scalar, ScalarKind, ShapeData, SynthExpr, SynthField,
    TypeAttrs, TypeSchema, Value,
};
use comparable::structs::create_change_type_for_structs;
use comparable::types::Changed;

fn fld(name: Option<&str>, ty: ElemSchema) -> FieldSchema {
    FieldSchema {
        name: name.map(str::to_string),
        ty,
        ignored: false,
        synthetics: vec![],
    }
}

fn product(name: &str, named: bool, fields: Vec<FieldSchema>) -> TypeSchema {
    TypeSchema {
        name: name.to_string(),
        vis: GenVis::GPrivate,
        attrs: TypeAttrs::new(),
        data: ShapeData::DStruct(named, fields),
    }
}

fn vi32(x: i32) -> Value {
    Value::VScalar(Scalar::VI32(x))
}

fn vu64(x: u64) -> Value {
    Value::VScalar(Scalar::VU64(x))
}

fn vu8(x: u8) -> Value {
    Value::VScalar(Scalar::VU8(x))
}

fn entry(field: usize, change: ChangeValue) -> FieldEntry {
    FieldEntry {
        field,
        change: Box::new(change),
    }
}

fn ci32(a: i32, b: i32) -> ChangeValue {
    ChangeValue::CScalar(ScalarChange::CI32(I32Change(a, b)))
}

#[test]
fn test_struct_0_fields() {
    let ts = product("Unit", false, vec![]);
    let unit = Value::VRecord(vec![]);
    assert_eq!(Changed::Unchanged, compare_values(&ts, &unit, &unit));
}

#[test]
fn test_struct_1_unnamed_field_unit() {
    let ts = product(
        "UnitField",
        false,
        vec![fld(None, ElemSchema::EScalar(ScalarKind::KUnit))],
    );
    let v = Value::VRecord(vec![Value::VScalar(Scalar::VUnit)]);
    assert_eq!(Changed::Unchanged, compare_values(&ts, &v, &v));
}

#[test]
fn test_struct_1_unnamed_field_scalar() {
    let ts = product(
        "ScalarField",
        false,
        vec![fld(None, ElemSchema::EScalar(ScalarKind::KI32))],
    );
    let a = Value::VRecord(vec![vi32(100)]);
    let b = Value::VRecord(vec![vi32(200)]);
    assert_eq!(Changed::Unchanged, compare_values(&ts, &a, &a));
    // A singleton product reports the field's own change directly.
    assert_eq!(Changed::Changed(ci32(100, 200)), compare_values(&ts, &a, &b));
    // Its change type is the named one-field mirror, ScalarFieldChange.
    let def = generate_change_type(&ts);
    match def.ty {
        Some(GenTypeRef::RNamed(name)) => assert_eq!(name, "ScalarFieldChange"),
        other => panic!("unexpected change type reference: {:?}", other),
    }
}

#[test]
fn test_struct_2_unnamed_fields_scalar() {
    let fields = || {
        vec![
            fld(None, ElemSchema::EScalar(ScalarKind::KI32)),
            fld(None, ElemSchema::EScalar(ScalarKind::KU64)),
        ]
    };
    let ts = product("ScalarFields", false, fields());
    let v = |x: i32, y: u64| Value::VRecord(vec![vi32(x), vu64(y)]);
    assert_eq!(
        Changed::Unchanged,
        compare_values(&ts, &v(100, 200), &v(100, 200))
    );
    assert_eq!(
        Changed::Changed(ChangeValue::CFields(vec![entry(0, ci32(100, 200))])),
        compare_values(&ts, &v(100, 200), &v(200, 200))
    );
    assert_eq!(
        Changed::Changed(ChangeValue::CFields(vec![entry(
            1,
            ChangeValue::CScalar(ScalarChange::CU64(U64Change(200, 300)))
        )])),
        compare_values(&ts, &v(100, 200), &v(100, 300))
    );
    assert_eq!(
        Changed::Changed(ChangeValue::CFields(vec![
            entry(0, ci32(100, 200)),
            entry(1, ChangeValue::CScalar(ScalarChange::CU64(U64Change(200, 300)))),
        ])),
        compare_values(&ts, &v(100, 200), &v(200, 300))
    );
    // The positional fields are tagged Field0 and Field1.
    match create_change_type_for_structs(false, &fields()) {
        Some(GenData::GEnum(vs)) => {
            assert_eq!(vs[0].name, "Field0");
            assert_eq!(vs[1].name, "Field1");
        }
        other => panic!("unexpected change data: {:?}", other),
    }
}

#[test]
fn test_struct_1_unnamed_field_ignored() {
    let mut f = fld(None, ElemSchema::EList(Box::new(ElemSchema::EScalar(ScalarKind::KU8))));
    f.ignored = true;
    let ts = product("ScalarUnnamedVecIgnored", false, vec![f]);
    let v = Value::VRecord(vec![Value::VList(vec![])]);
    assert_eq!(Changed::Unchanged, compare_values(&ts, &v, &v));
}

#[test]
fn test_struct_1_unnamed_field_ignored_with_attrs() {
    let mut f = fld(None, ElemSchema::EList(Box::new(ElemSchema::EScalar(ScalarKind::KU8))));
    f.ignored = true;
    let mut ts = product("ScalarUnnamedVecIgnored", false, vec![f]);
    ts.attrs.describe_override = Some(SynthExpr::LitStr("it's a vector".to_string()));
    let v = Value::VRecord(vec![Value::VList(vec![])]);
    assert_eq!(Changed::Unchanged, compare_values(&ts, &v, &v));
    assert_eq!(
        DescValue::DScalar(Scalar::VStr("it's a vector".to_string())),
        describe_value(&ts, &v)
    );
}

#[test]
fn test_struct_2_named_fields_scalar() {
    let fields = || {
        vec![
            fld(Some("some_int"), ElemSchema::EScalar(ScalarKind::KI32)),
            fld(Some("some_ulong"), ElemSchema::EScalar(ScalarKind::KU64)),
        ]
    };
    let ts = product("ScalarNamedFields", true, fields());
    let v = |x: i32, y: u64| Value::VRecord(vec![vi32(x), vu64(y)]);
    assert_eq!(
        Changed::Unchanged,
        compare_values(&ts, &v(100, 200), &v(100, 200))
    );
    assert_eq!(
        Changed::Changed(ChangeValue::CFields(vec![entry(0, ci32(100, 200))])),
        compare_values(&ts, &v(100, 200), &v(200, 200))
    );
    assert_eq!(
        Changed::Changed(ChangeValue::CFields(vec![entry(
            1,
            ChangeValue::CScalar(ScalarChange::CU64(U64Change(200, 300)))
        )])),
        compare_values(&ts, &v(100, 200), &v(100, 300))
    );
    assert_eq!(
        Changed::Changed(ChangeValue::CFields(vec![
            entry(0, ci32(100, 200)),
            entry(1, ChangeValue::CScalar(ScalarChange::CU64(U64Change(200, 300)))),
        ])),
        compare_values(&ts, &v(100, 200), &v(200, 300))
    );
    // The named fields are tagged SomeInt and SomeUlong.
    match create_change_type_for_structs(true, &fields()) {
        Some(GenData::GEnum(vs)) => {
            assert_eq!(vs[0].name, "SomeInt");
            assert_eq!(vs[1].name, "SomeUlong");
        }
        other => panic!("unexpected change data: {:?}", other),
    }
}

#[test]
fn test_struct_1_named_field_ignored() {
    let mut f = fld(
        Some("some_ints"),
        ElemSchema::EList(Box::new(ElemSchema::EScalar(ScalarKind::KU8))),
    );
    f.ignored = true;
    let ts = product("ScalarNamedVecIgnored", true, vec![f]);
    let v = Value::VRecord(vec![Value::VList(vec![])]);
    assert_eq!(Changed::Unchanged, compare_values(&ts, &v, &v));
}

#[test]
fn test_struct_1_named_field_not_ignored() {
    let ts = product(
        "ScalarNamedVecNotIgnored",
        true,
        vec![fld(
            Some("some_ints"),
            ElemSchema::EList(Box::new(ElemSchema::EScalar(ScalarKind::KU8))),
        )],
    );
    let v = Value::VRecord(vec![Value::VList(vec![])]);
    assert_eq!(Changed::Unchanged, compare_values(&ts, &v, &v));
}

#[test]
fn test_struct_1_named_field_self_describing() {
    let mut ts = product(
        "ScalarNamedVecNotIgnored",
        true,
        vec![fld(
            Some("some_ints"),
            ElemSchema::EList(Box::new(ElemSchema::EScalar(ScalarKind::KU8))),
        )],
    );
    ts.attrs.self_describing = true;
    let a = Value::VRecord(vec![Value::VList(vec![vu8(100)])]);
    let b = Value::VRecord(vec![Value::VList(vec![vu8(200)])]);
    assert_eq!(
        Changed::Changed(ChangeValue::CList(vec![
            comparable::compare::ListEntry::LChanged(
                0,
                Box::new(ChangeValue::CScalar(ScalarChange::CU8(U8Change(100, 200))))
            )
        ])),
        compare_values(&ts, &a, &b)
    );
    // A self-describing type is its own description.
    assert_eq!(
        DescValue::DWhole(Box::new(Value::VRecord(vec![Value::VList(vec![vu8(100)])]))),
        describe_value(&ts, &a)
    );
}

#[test]
fn test_struct_1_named_field_comparable_change_suffix() {
    let mut ts = product(
        "ScalarNamedVecNotIgnored",
        true,
        vec![fld(
            Some("some_ints"),
            ElemSchema::EList(Box::new(ElemSchema::EScalar(ScalarKind::KU8))),
        )],
    );
    ts.attrs.change_suffix = "Mutated".to_string();
    let a = Value::VRecord(vec![Value::VList(vec![vu8(100)])]);
    let b = Value::VRecord(vec![Value::VList(vec![vu8(200)])]);
    assert_eq!(
        Changed::Changed(ChangeValue::CList(vec![
            comparable::compare::ListEntry::LChanged(
                0,
                Box::new(ChangeValue::CScalar(ScalarChange::CU8(U8Change(100, 200))))
            )
        ])),
        compare_values(&ts, &a, &b)
    );
    // The change type's name carries the overridden suffix.
    let def = generate_change_type(&ts);
    match def.ty {
        Some(GenTypeRef::RNamed(name)) => {
            assert_eq!(name, "ScalarNamedVecNotIgnoredMutated")
        }
        other => panic!("unexpected change type reference: {:?}", other),
    }
}

#[test]
fn test_struct_1_named_field_comparable_synthetic() {
    let fields = || {
        let mut ensemble = fld(
            Some("ensemble"),
            ElemSchema::EList(Box::new(ElemSchema::EScalar(ScalarKind::KU8))),
        );
        ensemble.ignored = true;
        ensemble.synthetics = vec![SynthField {
            name: "full_value".to_string(),
            expr: SynthExpr::SumU8(0),
        }];
        vec![ensemble, fld(Some("some_int"), ElemSchema::EScalar(ScalarKind::KU8))]
    };
    let ts = product("Synthetics", true, fields());
    let a = Value::VRecord(vec![Value::VList(vec![vu8(100)]), vu8(100)]);
    let b = Value::VRecord(vec![Value::VList(vec![vu8(200)]), vu8(100)]);
    assert_eq!(
        Changed::Changed(ChangeValue::CFields(vec![entry(
            0,
            ChangeValue::CScalar(ScalarChange::CU8(U8Change(100, 200)))
        )])),
        compare_values(&ts, &a, &b)
    );
    // The synthetic field is tagged FullValue, ahead of SomeInt.
    match create_change_type_for_structs(true, &fields()) {
        Some(GenData::GEnum(vs)) => {
            assert_eq!(vs[0].name, "FullValue");
            assert_eq!(vs[1].name, "SomeInt");
        }
        other => panic!("unexpected change data: {:?}", other),
    }
}

#[test]
fn test_struct_3_named_fields_varying_visibility() {
    let ts = product(
        "Visible",
        true,
        vec![
            fld(Some("pub_int_one"), ElemSchema::EScalar(ScalarKind::KI32)),
            fld(Some("pub_crate_int_two"), ElemSchema::EScalar(ScalarKind::KI32)),
            fld(Some("private_int_three"), ElemSchema::EScalar(ScalarKind::KI32)),
        ],
    );
    let v = |x: i32, y: i32, z: i32| Value::VRecord(vec![vi32(x), vi32(y), vi32(z)]);
    assert_eq!(
        Changed::Changed(ChangeValue::CFields(vec![
            entry(0, ci32(1, 4)),
            entry(1, ci32(2, 5)),
            entry(2, ci32(3, 6)),
        ])),
        compare_values(&ts, &v(1, 2, 3), &v(4, 5, 6))
    );
}
