use comparable::compare::{
    compare_values, ChangeValue, DescValue, FieldEntry, ScalarChange, VariantPayload,
};
use comparable::definition::{generate_change_type, GenData};
use comparable::outputs::process_schema;
use comparable::scalar::{I16Change, I32Change, U16Change, U32Change, U64Change, U8Change};
use comparable::schema::{
    ElemSchema, FieldSchema, GenVis, Scalar, ScalarKind, ShapeData, TypeAttrs, TypeSchema, Value,
    VariantSchema,
};
use comparable::types::Changed;

fn fld(name: Option<&str>, ty: ElemSchema) -> FieldSchema {
    FieldSchema {
        name: name.map(str::to_string),
        ty,
        ignored: false,
        synthetics: vec![],
    }
}

fn ignored_fld(name: Option<&str>, ty: ElemSchema) -> FieldSchema {
    FieldSchema {
        name: name.map(str::to_string),
        ty,
        ignored: true,
        synthetics: vec![],
    }
}

fn variant(name: &str, named: bool, fields: Vec<FieldSchema>) -> VariantSchema {
    VariantSchema {
        name: name.to_string(),
        named,
        fields,
    }
}

fn sum(name: &str, variants: Vec<VariantSchema>) -> TypeSchema {
    TypeSchema {
        name: name.to_string(),
        vis: GenVis::GPrivate,
        attrs: TypeAttrs::new(),
        data: ShapeData::DEnum(variants),
    }
}

fn vi32(x: i32) -> Value {
    Value::VScalar(Scalar::VI32(x))
}

fn scalar_field(k: ScalarKind) -> ElemSchema {
    ElemSchema::EScalar(k)
}

fn both_one(idx: usize, c: ChangeValue) -> Changed<ChangeValue> {
    Changed::Changed(ChangeValue::CBoth(idx, VariantPayload::POne(Box::new(c))))
}

fn ci32(a: i32, b: i32) -> ChangeValue {
    ChangeValue::CScalar(ScalarChange::CI32(I32Change(a, b)))
}

#[test]
fn test_enum_0_variants() {
    // These can never be instantiated, so no change type is generated.
    let ts = sum("Unit", vec![]);
    let out = process_schema(&ts);
    assert!(out.change.is_none());
}

#[test]
fn test_unit_enum() {
    // These can never be instantiated.
    let ts = sum("Unit", vec![]);
    let out = process_schema(&ts);
    assert!(out.change.is_none());
}

#[test]
fn test_enum_1_variant_0_fields() {
    let ts = sum("UnitEnum", vec![variant("Field", false, vec![])]);
    let v = Value::VVariant(0, vec![]);
    assert_eq!(Changed::Unchanged, compare_values(&ts, &v, &v));
}

#[test]
fn test_enum_1_variant_1_unnamed_field_scalar() {
    let ts = sum(
        "ScalarEnum",
        vec![variant("Field", false, vec![fld(None, scalar_field(ScalarKind::KI32))])],
    );
    let v = |x: i32| Value::VVariant(0, vec![vi32(x)]);
    assert_eq!(Changed::Unchanged, compare_values(&ts, &v(100), &v(100)));
    assert_eq!(both_one(0, ci32(100, 200)), compare_values(&ts, &v(100), &v(200)));
    // The single variant's representant is tagged BothField.
    let def = generate_change_type(&ts);
    match def.definition.unwrap().data {
        GenData::GEnum(vs) => {
            assert_eq!(1, vs.len());
            assert_eq!(vs[0].name, "BothField");
        }
        other => panic!("unexpected change data: {:?}", other),
    }
}

#[test]
fn test_enum_2_variants_1_unnamed_field_scalar() {
    let ts = sum(
        "ScalarEnum",
        vec![
            variant("Field1", false, vec![fld(None, scalar_field(ScalarKind::KI32))]),
            variant("Field2", false, vec![fld(None, scalar_field(ScalarKind::KI32))]),
        ],
    );
    let v1 = |x: i32| Value::VVariant(0, vec![vi32(x)]);
    let v2 = |x: i32| Value::VVariant(1, vec![vi32(x)]);
    assert_eq!(Changed::Unchanged, compare_values(&ts, &v1(100), &v1(100)));
    assert_eq!(both_one(0, ci32(100, 200)), compare_values(&ts, &v1(100), &v1(200)));
    assert_eq!(
        Changed::Changed(ChangeValue::CDifferent(
            Box::new(DescValue::DVariant(0, vec![DescValue::DScalar(Scalar::VI32(100))])),
            Box::new(DescValue::DVariant(1, vec![DescValue::DScalar(Scalar::VI32(100))])),
        )),
        compare_values(&ts, &v1(100), &v2(100))
    );
}

#[test]
fn test_enum_1_variant_1_named_field_scalar() {
    let ts = sum(
        "ScalarNamedEnum",
        vec![variant(
            "Field",
            true,
            vec![fld(Some("some_int"), scalar_field(ScalarKind::KI32))],
        )],
    );
    let v = |x: i32| Value::VVariant(0, vec![vi32(x)]);
    assert_eq!(Changed::Unchanged, compare_values(&ts, &v(100), &v(100)));
    assert_eq!(both_one(0, ci32(100, 200)), compare_values(&ts, &v(100), &v(200)));
}

#[test]
fn test_enum_1_variant_ignored() {
    // The ignore directive on a unit variant leaves nothing to difference.
    let ts = sum("ScalarEnumIgnore", vec![variant("Field", false, vec![])]);
    let v = Value::VVariant(0, vec![]);
    assert_eq!(Changed::Unchanged, compare_values(&ts, &v, &v));
}

#[test]
fn test_enum_1_variant_2_named_fields_scalar() {
    let ts = sum(
        "ScalarNamedEnum",
        vec![variant(
            "Field",
            true,
            vec![
                fld(Some("some_int"), scalar_field(ScalarKind::KI32)),
                fld(Some("some_ulong"), scalar_field(ScalarKind::KU64)),
            ],
        )],
    );
    let v = |x: i32, y: u64| {
        Value::VVariant(0, vec![vi32(x), Value::VScalar(Scalar::VU64(y))])
    };
    let wrapped = |a: Changed<ChangeValue>, b: Changed<ChangeValue>| {
        Changed::Changed(ChangeValue::CBoth(0, VariantPayload::PWrapped(vec![a, b])))
    };
    assert_eq!(Changed::Unchanged, compare_values(&ts, &v(100, 200), &v(100, 200)));
    assert_eq!(
        wrapped(Changed::Changed(ci32(100, 200)), Changed::Unchanged),
        compare_values(&ts, &v(100, 200), &v(200, 200))
    );
    assert_eq!(
        wrapped(
            Changed::Unchanged,
            Changed::Changed(ChangeValue::CScalar(ScalarChange::CU64(U64Change(200, 300))))
        ),
        compare_values(&ts, &v(100, 200), &v(100, 300))
    );
    assert_eq!(
        wrapped(
            Changed::Changed(ci32(100, 200)),
            Changed::Changed(ChangeValue::CScalar(ScalarChange::CU64(U64Change(200, 300))))
        ),
        compare_values(&ts, &v(100, 200), &v(200, 300))
    );
}

#[test]
fn test_enum_2_variants_1_named_fields_scalar() {
    let ts = sum(
        "ScalarNamedEnum",
        vec![
            variant("Field1", true, vec![fld(Some("some_int"), scalar_field(ScalarKind::KI32))]),
            variant("Field2", true, vec![fld(Some("some_int"), scalar_field(ScalarKind::KI32))]),
        ],
    );
    let v1 = |x: i32| Value::VVariant(0, vec![vi32(x)]);
    let v2 = |x: i32| Value::VVariant(1, vec![vi32(x)]);
    assert_eq!(Changed::Unchanged, compare_values(&ts, &v1(100), &v1(100)));
    assert_eq!(both_one(0, ci32(100, 200)), compare_values(&ts, &v1(100), &v1(200)));
    assert_eq!(
        Changed::Changed(ChangeValue::CDifferent(
            Box::new(DescValue::DVariant(0, vec![DescValue::DScalar(Scalar::VI32(100))])),
            Box::new(DescValue::DVariant(1, vec![DescValue::DScalar(Scalar::VI32(100))])),
        )),
        compare_values(&ts, &v1(100), &v2(100))
    );
}

fn five_variant_schema(flatten: bool) -> TypeSchema {
    let mut ts = sum(
        "MyEnum",
        vec![
            variant("UnitField", false, vec![]),
            variant("ScalarUnnamedField", false, vec![fld(None, scalar_field(ScalarKind::KI32))]),
            variant(
                "ScalarNamedField",
                true,
                vec![fld(Some("some_int"), scalar_field(ScalarKind::KI32))],
            ),
            variant(
                "ScalarUnnamedFields",
                false,
                vec![
                    fld(None, scalar_field(ScalarKind::KI32)),
                    fld(None, scalar_field(ScalarKind::KU64)),
                ],
            ),
            variant(
                "ScalarNamedFields",
                true,
                vec![
                    fld(Some("some_int"), scalar_field(ScalarKind::KI32)),
                    fld(Some("some_ulong"), scalar_field(ScalarKind::KU64)),
                ],
            ),
        ],
    );
    ts.attrs.variant_struct_fields = flatten;
    ts
}

#[test]
fn test_enum_5_variants() {
    let ts = five_variant_schema(false);
    let unit = Value::VVariant(0, vec![]);
    let unnamed = |x: i32| Value::VVariant(1, vec![vi32(x)]);
    let named = |x: i32| Value::VVariant(2, vec![vi32(x)]);
    let unnamed2 = |x: i32, y: u64| {
        Value::VVariant(3, vec![vi32(x), Value::VScalar(Scalar::VU64(y))])
    };
    let named2 = |x: i32, y: u64| {
        Value::VVariant(4, vec![vi32(x), Value::VScalar(Scalar::VU64(y))])
    };
    assert_eq!(Changed::Unchanged, compare_values(&ts, &unit, &unit));

    assert_eq!(Changed::Unchanged, compare_values(&ts, &unnamed(100), &unnamed(100)));
    assert_eq!(both_one(1, ci32(100, 200)), compare_values(&ts, &unnamed(100), &unnamed(200)));

    assert_eq!(Changed::Unchanged, compare_values(&ts, &named(100), &named(100)));
    assert_eq!(both_one(2, ci32(100, 200)), compare_values(&ts, &named(100), &named(200)));

    let wrapped3 = |a: Changed<ChangeValue>, b: Changed<ChangeValue>| {
        Changed::Changed(ChangeValue::CBoth(3, VariantPayload::PWrapped(vec![a, b])))
    };
    assert_eq!(
        Changed::Unchanged,
        compare_values(&ts, &unnamed2(100, 200), &unnamed2(100, 200))
    );
    assert_eq!(
        wrapped3(Changed::Changed(ci32(100, 200)), Changed::Unchanged),
        compare_values(&ts, &unnamed2(100, 200), &unnamed2(200, 200))
    );
    assert_eq!(
        wrapped3(
            Changed::Unchanged,
            Changed::Changed(ChangeValue::CScalar(ScalarChange::CU64(U64Change(200, 300))))
        ),
        compare_values(&ts, &unnamed2(100, 200), &unnamed2(100, 300))
    );
    assert_eq!(
        wrapped3(
            Changed::Changed(ci32(100, 200)),
            Changed::Changed(ChangeValue::CScalar(ScalarChange::CU64(U64Change(200, 300))))
        ),
        compare_values(&ts, &unnamed2(100, 200), &unnamed2(200, 300))
    );

    let wrapped4 = |a: Changed<ChangeValue>, b: Changed<ChangeValue>| {
        Changed::Changed(ChangeValue::CBoth(4, VariantPayload::PWrapped(vec![a, b])))
    };
    assert_eq!(
        Changed::Unchanged,
        compare_values(&ts, &named2(100, 200), &named2(100, 200))
    );
    assert_eq!(
        wrapped4(Changed::Changed(ci32(100, 200)), Changed::Unchanged),
        compare_values(&ts, &named2(100, 200), &named2(200, 200))
    );
    assert_eq!(
        wrapped4(
            Changed::Unchanged,
            Changed::Changed(ChangeValue::CScalar(ScalarChange::CU64(U64Change(200, 300))))
        ),
        compare_values(&ts, &named2(100, 200), &named2(100, 300))
    );
    assert_eq!(
        wrapped4(
            Changed::Changed(ci32(100, 200)),
            Changed::Changed(ChangeValue::CScalar(ScalarChange::CU64(U64Change(200, 300))))
        ),
        compare_values(&ts, &named2(100, 200), &named2(200, 300))
    );
}

#[test]
fn test_enum_5_variants_as_struct() {
    let ts = five_variant_schema(true);
    let unit = Value::VVariant(0, vec![]);
    let unnamed = |x: i32| Value::VVariant(1, vec![vi32(x)]);
    let named = |x: i32| Value::VVariant(2, vec![vi32(x)]);
    let unnamed2 = |x: i32, y: u64| {
        Value::VVariant(3, vec![vi32(x), Value::VScalar(Scalar::VU64(y))])
    };
    let named2 = |x: i32, y: u64| {
        Value::VVariant(4, vec![vi32(x), Value::VScalar(Scalar::VU64(y))])
    };
    let entry = |field: usize, change: ChangeValue| FieldEntry {
        field,
        change: Box::new(change),
    };
    assert_eq!(Changed::Unchanged, compare_values(&ts, &unit, &unit));

    assert_eq!(Changed::Unchanged, compare_values(&ts, &unnamed(100), &unnamed(100)));
    assert_eq!(both_one(1, ci32(100, 200)), compare_values(&ts, &unnamed(100), &unnamed(200)));

    assert_eq!(Changed::Unchanged, compare_values(&ts, &named(100), &named(100)));
    assert_eq!(both_one(2, ci32(100, 200)), compare_values(&ts, &named(100), &named(200)));

    let flat3 = |es: Vec<FieldEntry>| {
        Changed::Changed(ChangeValue::CBoth(3, VariantPayload::PFields(es)))
    };
    assert_eq!(
        Changed::Unchanged,
        compare_values(&ts, &unnamed2(100, 200), &unnamed2(100, 200))
    );
    assert_eq!(
        flat3(vec![entry(0, ci32(100, 200))]),
        compare_values(&ts, &unnamed2(100, 200), &unnamed2(200, 200))
    );
    assert_eq!(
        flat3(vec![entry(
            1,
            ChangeValue::CScalar(ScalarChange::CU64(U64Change(200, 300)))
        )]),
        compare_values(&ts, &unnamed2(100, 200), &unnamed2(100, 300))
    );
    assert_eq!(
        flat3(vec![
            entry(0, ci32(100, 200)),
            entry(1, ChangeValue::CScalar(ScalarChange::CU64(U64Change(200, 300)))),
        ]),
        compare_values(&ts, &unnamed2(100, 200), &unnamed2(200, 300))
    );

    let flat4 = |es: Vec<FieldEntry>| {
        Changed::Changed(ChangeValue::CBoth(4, VariantPayload::PFields(es)))
    };
    assert_eq!(
        Changed::Unchanged,
        compare_values(&ts, &named2(100, 200), &named2(100, 200))
    );
    assert_eq!(
        flat4(vec![entry(0, ci32(100, 200))]),
        compare_values(&ts, &named2(100, 200), &named2(200, 200))
    );
    assert_eq!(
        flat4(vec![entry(
            1,
            ChangeValue::CScalar(ScalarChange::CU64(U64Change(200, 300)))
        )]),
        compare_values(&ts, &named2(100, 200), &named2(100, 300))
    );
    assert_eq!(
        flat4(vec![
            entry(0, ci32(100, 200)),
            entry(1, ChangeValue::CScalar(ScalarChange::CU64(U64Change(200, 300)))),
        ]),
        compare_values(&ts, &named2(100, 200), &named2(200, 300))
    );

    // The flattened variants use helper change types named after the host
    // type, the variant and the suffix.
    let def = generate_change_type(&ts);
    assert_eq!(2, def.helpers.len());
    assert_eq!(def.helpers[0].name, "MyEnumScalarUnnamedFieldsChange");
    assert_eq!(def.helpers[1].name, "MyEnumScalarNamedFieldsChange");
}

#[test]
fn test_enum_fields_varying_visibility() {
    let make = |name: &str| {
        sum(
            name,
            vec![variant("Field", true, vec![fld(Some("int"), scalar_field(ScalarKind::KI32))])],
        )
    };
    let v = |x: i32| Value::VVariant(0, vec![vi32(x)]);
    for name in ["VisiblePub", "VisiblePubCrate", "VisiblePrivate"] {
        let ts = make(name);
        assert_eq!(both_one(0, ci32(1, 4)), compare_values(&ts, &v(1), &v(4)));
    }
}

#[test]
fn test_enum_1_variant_1_unnamed_field_1_ignored() {
    let ts = sum(
        "UnitEnum",
        vec![variant("Field", false, vec![ignored_fld(None, scalar_field(ScalarKind::KU8))])],
    );
    let v = |x: u8| Value::VVariant(0, vec![Value::VScalar(Scalar::VU8(x))]);
    assert_eq!(Changed::Unchanged, compare_values(&ts, &v(0), &v(1)));
}

#[test]
fn test_enum_1_variant_2_unnamed_field_first_ignored() {
    let ts = sum(
        "UnitEnum",
        vec![variant(
            "Field",
            false,
            vec![
                ignored_fld(None, scalar_field(ScalarKind::KU8)),
                fld(None, scalar_field(ScalarKind::KU16)),
            ],
        )],
    );
    let v = |x: u8, y: u16| {
        Value::VVariant(0, vec![Value::VScalar(Scalar::VU8(x)), Value::VScalar(Scalar::VU16(y))])
    };
    assert_eq!(Changed::Unchanged, compare_values(&ts, &v(0, 0), &v(1, 0)));
    assert_eq!(
        Changed::Changed(ChangeValue::CBoth(
            0,
            VariantPayload::PWrapped(vec![Changed::Changed(ChangeValue::CScalar(
                ScalarChange::CU16(U16Change(0, 1))
            ))])
        )),
        compare_values(&ts, &v(0, 0), &v(1, 1))
    );
}

#[test]
fn test_enum_1_variant_2_unnamed_field_second_ignored() {
    let ts = sum(
        "UnitEnum",
        vec![variant(
            "Field",
            false,
            vec![
                fld(None, scalar_field(ScalarKind::KU8)),
                ignored_fld(None, scalar_field(ScalarKind::KU16)),
            ],
        )],
    );
    let v = |x: u8, y: u16| {
        Value::VVariant(0, vec![Value::VScalar(Scalar::VU8(x)), Value::VScalar(Scalar::VU16(y))])
    };
    assert_eq!(Changed::Unchanged, compare_values(&ts, &v(0, 0), &v(0, 1)));
    assert_eq!(
        Changed::Changed(ChangeValue::CBoth(
            0,
            VariantPayload::PWrapped(vec![Changed::Changed(ChangeValue::CScalar(
                ScalarChange::CU8(U8Change(0, 1))
            ))])
        )),
        compare_values(&ts, &v(0, 0), &v(1, 1))
    );
}

#[test]
fn test_enum_1_variant_3_unnamed_field_first_third_ignored() {
    let ts = sum(
        "UnitEnum",
        vec![variant(
            "Field",
            false,
            vec![
                ignored_fld(None, scalar_field(ScalarKind::KU8)),
                fld(None, scalar_field(ScalarKind::KU16)),
                ignored_fld(None, scalar_field(ScalarKind::KU32)),
            ],
        )],
    );
    let v = |x: u8, y: u16, z: u32| {
        Value::VVariant(
            0,
            vec![
                Value::VScalar(Scalar::VU8(x)),
                Value::VScalar(Scalar::VU16(y)),
                Value::VScalar(Scalar::VU32(z)),
            ],
        )
    };
    let changed_u16 = Changed::Changed(ChangeValue::CBoth(
        0,
        VariantPayload::PWrapped(vec![Changed::Changed(ChangeValue::CScalar(
            ScalarChange::CU16(U16Change(0, 1)),
        ))]),
    ));
    assert_eq!(Changed::Unchanged, compare_values(&ts, &v(0, 0, 0), &v(1, 0, 1)));
    assert_eq!(changed_u16, compare_values(&ts, &v(0, 0, 0), &v(1, 1, 0)));
    assert_eq!(changed_u16, compare_values(&ts, &v(0, 0, 0), &v(1, 1, 1)));
}

#[test]
fn test_enum_2_variant_2_unnamed_field_1_ignored() {
    let ts = sum(
        "TwoVariantEnum",
        vec![
            variant(
                "Field1",
                false,
                vec![
                    ignored_fld(None, scalar_field(ScalarKind::KU8)),
                    fld(None, scalar_field(ScalarKind::KU16)),
                ],
            ),
            variant("Field2", false, vec![fld(None, scalar_field(ScalarKind::KU32))]),
        ],
    );
    let v1 = |x: u8, y: u16| {
        Value::VVariant(0, vec![Value::VScalar(Scalar::VU8(x)), Value::VScalar(Scalar::VU16(y))])
    };
    let v2 = |x: u32| Value::VVariant(1, vec![Value::VScalar(Scalar::VU32(x))]);
    assert_eq!(Changed::Unchanged, compare_values(&ts, &v1(0, 0), &v1(1, 0)));
    assert_eq!(Changed::Unchanged, compare_values(&ts, &v2(1), &v2(1)));
    assert_eq!(
        both_one(1, ChangeValue::CScalar(ScalarChange::CU32(U32Change(1, 0)))),
        compare_values(&ts, &v2(1), &v2(0))
    );
    assert_eq!(
        Changed::Changed(ChangeValue::CDifferent(
            Box::new(DescValue::DVariant(0, vec![DescValue::DScalar(Scalar::VU16(0))])),
            Box::new(DescValue::DVariant(1, vec![DescValue::DScalar(Scalar::VU32(0))])),
        )),
        compare_values(&ts, &v1(1, 0), &v2(0))
    );
    assert_eq!(
        Changed::Changed(ChangeValue::CBoth(
            0,
            VariantPayload::PWrapped(vec![Changed::Changed(ChangeValue::CScalar(
                ScalarChange::CU16(U16Change(0, 1))
            ))])
        )),
        compare_values(&ts, &v1(0, 0), &v1(1, 1))
    );
}

#[test]
fn test_enum_1_variant_1_named_field_1_ignored() {
    let ts = sum(
        "UnitEnum",
        vec![variant(
            "Field",
            true,
            vec![ignored_fld(Some("some_u8"), scalar_field(ScalarKind::KU8))],
        )],
    );
    let v = |x: u8| Value::VVariant(0, vec![Value::VScalar(Scalar::VU8(x))]);
    assert_eq!(Changed::Unchanged, compare_values(&ts, &v(0), &v(1)));
}

#[test]
fn test_enum_1_variant_2_named_field_first_ignored() {
    let ts = sum(
        "UnitEnum",
        vec![variant(
            "Field",
            true,
            vec![
                ignored_fld(Some("some_u8"), scalar_field(ScalarKind::KU8)),
                fld(Some("some_u16"), scalar_field(ScalarKind::KU16)),
            ],
        )],
    );
    let v = |x: u8, y: u16| {
        Value::VVariant(0, vec![Value::VScalar(Scalar::VU8(x)), Value::VScalar(Scalar::VU16(y))])
    };
    assert_eq!(Changed::Unchanged, compare_values(&ts, &v(0, 0), &v(1, 0)));
    assert_eq!(
        Changed::Changed(ChangeValue::CBoth(
            0,
            VariantPayload::PWrapped(vec![Changed::Changed(ChangeValue::CScalar(
                ScalarChange::CU16(U16Change(0, 1))
            ))])
        )),
        compare_values(&ts, &v(0, 0), &v(1, 1))
    );
}

#[test]
fn test_enum_1_variant_2_named_field_second_ignored() {
    let ts = sum(
        "UnitEnum",
        vec![variant(
            "Field",
            true,
            vec![
                fld(Some("some_u8"), scalar_field(ScalarKind::KU8)),
                ignored_fld(Some("some_u16"), scalar_field(ScalarKind::KU16)),
            ],
        )],
    );
    let v = |x: u8, y: u16| {
        Value::VVariant(0, vec![Value::VScalar(Scalar::VU8(x)), Value::VScalar(Scalar::VU16(y))])
    };
    assert_eq!(Changed::Unchanged, compare_values(&ts, &v(0, 0), &v(0, 1)));
    assert_eq!(
        Changed::Changed(ChangeValue::CBoth(
            0,
            VariantPayload::PWrapped(vec![Changed::Changed(ChangeValue::CScalar(
                ScalarChange::CU8(U8Change(0, 1))
            ))])
        )),
        compare_values(&ts, &v(0, 0), &v(1, 1))
    );
}

#[test]
fn test_enum_1_variant_3_named_field_first_third_ignored() {
    let ts = sum(
        "UnitEnum",
        vec![variant(
            "Field",
            true,
            vec![
                ignored_fld(Some("some_u8"), scalar_field(ScalarKind::KU8)),
                fld(Some("some_u16"), scalar_field(ScalarKind::KU16)),
                ignored_fld(Some("some_u32"), scalar_field(ScalarKind::KU32)),
            ],
        )],
    );
    let v = |x: u8, y: u16, z: u32| {
        Value::VVariant(
            0,
            vec![
                Value::VScalar(Scalar::VU8(x)),
                Value::VScalar(Scalar::VU16(y)),
                Value::VScalar(Scalar::VU32(z)),
            ],
        )
    };
    let changed_u16 = Changed::Changed(ChangeValue::CBoth(
        0,
        VariantPayload::PWrapped(vec![Changed::Changed(ChangeValue::CScalar(
            ScalarChange::CU16(U16Change(0, 1)),
        ))]),
    ));
    assert_eq!(Changed::Unchanged, compare_values(&ts, &v(0, 0, 0), &v(1, 0, 1)));
    assert_eq!(changed_u16, compare_values(&ts, &v(0, 0, 0), &v(1, 1, 0)));
    assert_eq!(changed_u16, compare_values(&ts, &v(0, 0, 0), &v(1, 1, 1)));
}

#[test]
fn test_enum_2_variant_2_named_field_1_ignored() {
    let ts = sum(
        "TwoVariantEnum",
        vec![
            variant(
                "Field1",
                true,
                vec![
                    ignored_fld(Some("some_u8"), scalar_field(ScalarKind::KU8)),
                    fld(Some("some_u16"), scalar_field(ScalarKind::KU16)),
                ],
            ),
            variant("Field2", true, vec![fld(Some("some_u32"), scalar_field(ScalarKind::KU32))]),
        ],
    );
    let v1 = |x: u8, y: u16| {
        Value::VVariant(0, vec![Value::VScalar(Scalar::VU8(x)), Value::VScalar(Scalar::VU16(y))])
    };
    let v2 = |x: u32| Value::VVariant(1, vec![Value::VScalar(Scalar::VU32(x))]);
    assert_eq!(Changed::Unchanged, compare_values(&ts, &v1(0, 0), &v1(1, 0)));
    assert_eq!(Changed::Unchanged, compare_values(&ts, &v2(1), &v2(1)));
    assert_eq!(
        both_one(1, ChangeValue::CScalar(ScalarChange::CU32(U32Change(1, 0)))),
        compare_values(&ts, &v2(1), &v2(0))
    );
    assert_eq!(
        Changed::Changed(ChangeValue::CDifferent(
            Box::new(DescValue::DVariant(0, vec![DescValue::DScalar(Scalar::VU16(0))])),
            Box::new(DescValue::DVariant(1, vec![DescValue::DScalar(Scalar::VU32(0))])),
        )),
        compare_values(&ts, &v1(1, 0), &v2(0))
    );
    assert_eq!(
        Changed::Changed(ChangeValue::CBoth(
            0,
            VariantPayload::PWrapped(vec![Changed::Changed(ChangeValue::CScalar(
                ScalarChange::CU16(U16Change(0, 1))
            ))])
        )),
        compare_values(&ts, &v1(0, 0), &v1(1, 1))
    );
}

#[test]
fn test_enum_i16_field() {
    let ts = sum(
        "ShortEnum",
        vec![variant("Field", false, vec![fld(None, scalar_field(ScalarKind::KI16))])],
    );
    let v = |x: i16| Value::VVariant(0, vec![Value::VScalar(Scalar::VI16(x))]);
    assert_eq!(
        both_one(0, ChangeValue::CScalar(ScalarChange::CI16(I16Change(-1, 1)))),
        compare_values(&ts, &v(-1), &v(1))
    );
}
