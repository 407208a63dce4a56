use crate::scalar::{
    BoolChange, CharChange, I16Change, I32Change, I64Change, I8Change, IsizeChange, U16Change,
    U32Change, U64Change, U8Change, UsizeChange,
};
use crate::schema::{
    elem_has_default, elem_matches, elem_wf, field_width_sum, fields_have_default, fields_match,
    fields_wf, lemma_fields_match_index,
    lemma_fields_wf_index, lemma_list_matches_index, lemma_model_list, lemma_variants_wf_index,
    list_matches, model_list, schema_wf, type_has_default, type_matches, variants_wf, ElemSchema,
    FieldSchema, Scalar, ScalarKind, ScalarV, ShapeData, SynthExpr, SynthField, TypeSchema, Val, Value,
};
use crate::string::StringChange;
use crate::types::Changed;
use vstd::prelude::*;

verus! {

/// The change between two scalar values: a before/after pair tagged by kind.
#[derive(PartialEq, Debug)]
pub enum ScalarChange {
    CBool(BoolChange),
    CU8(U8Change),
    CI8(I8Change),
    CU16(U16Change),
    CI16(I16Change),
    CU32(U32Change),
    CI32(I32Change),
    CU64(U64Change),
    CI64(I64Change),
    CUsize(UsizeChange),
    CIsize(IsizeChange),
    CChar(CharChange),
    CStr(StringChange),
}

/// The mathematical model of a [`ScalarChange`]: the tagged before/after pair.
pub enum ScalarChangeV {
    NBool(bool, bool),
    NU8(u8, u8),
    NI8(i8, i8),
    NU16(u16, u16),
    NI16(i16, i16),
    NU32(u32, u32),
    NI32(i32, i32),
    NU64(u64, u64),
    NI64(i64, i64),
    NUsize(usize, usize),
    NIsize(isize, isize),
    NChar(char, char),
    NStr(Seq<char>, Seq<char>),
}

impl ScalarChange {
    /// The mathematical model of this scalar change.
    pub open spec fn model(&self) -> ScalarChangeV {
        match self {
            ScalarChange::CBool(p) => ScalarChangeV::NBool(p.0, p.1),
            ScalarChange::CU8(p) => ScalarChangeV::NU8(p.0, p.1),
            ScalarChange::CI8(p) => ScalarChangeV::NI8(p.0, p.1),
            ScalarChange::CU16(p) => ScalarChangeV::NU16(p.0, p.1),
            ScalarChange::CI16(p) => ScalarChangeV::NI16(p.0, p.1),
            ScalarChange::CU32(p) => ScalarChangeV::NU32(p.0, p.1),
            ScalarChange::CI32(p) => ScalarChangeV::NI32(p.0, p.1),
            ScalarChange::CU64(p) => ScalarChangeV::NU64(p.0, p.1),
            ScalarChange::CI64(p) => ScalarChangeV::NI64(p.0, p.1),
            ScalarChange::CUsize(p) => ScalarChangeV::NUsize(p.0, p.1),
            ScalarChange::CIsize(p) => ScalarChangeV::NIsize(p.0, p.1),
            ScalarChange::CChar(p) => ScalarChangeV::NChar(p.0, p.1),
            ScalarChange::CStr(p) => ScalarChangeV::NStr(p.0@, p.1@),
        }
    }
}

/// The description of a value: a scalar copy, a mirror of a sequence, product
/// or variant with each part described, a whole-value copy (self-describing
/// types), the unit description (no-description types), or the change-set
/// from the type's default value (compare-against-default types).
#[derive(PartialEq, Debug)]
pub enum DescValue {
    DScalar(Scalar),
    DList(Vec<DescValue>),
    DRecord(Vec<DescValue>),
    DVariant(usize, Vec<DescValue>),
    DWhole(Box<Value>),
    DUnit,
    DDefault(Box<Changed<ChangeValue>>),
}

/// One positional edit in a sequence diff.
#[derive(PartialEq, Debug)]
pub enum ListEntry {
    LAdded(usize, DescValue),
    LChanged(usize, Box<ChangeValue>),
    LRemoved(usize, DescValue),
}

/// One entry of a minimal per-field change list: the effective index of the
/// field it concerns (counting synthetic fields, skipping ignored ones) and
/// the field's own change.  The generated change type names the entry after
/// the field; the index identifies that tag.
#[derive(PartialEq, Debug)]
pub struct FieldEntry {
    pub field: usize,
    pub change: Box<ChangeValue>,
}

/// The payload of a same-variant change: the single field's change directly,
/// one `Changed` slot per kept field, or a flattened minimal list of tagged
/// per-field entries.
#[derive(PartialEq, Debug)]
pub enum VariantPayload {
    POne(Box<ChangeValue>),
    PWrapped(Vec<Changed<ChangeValue>>),
    PFields(Vec<FieldEntry>),
}

/// The change between two values of a schema-described type.
#[derive(PartialEq, Debug)]
pub enum ChangeValue {
    CScalar(ScalarChange),
    CList(Vec<ListEntry>),
    CFields(Vec<FieldEntry>),
    CBoth(usize, VariantPayload),
    CDifferent(Box<DescValue>, Box<DescValue>),
}

/// The mathematical model of a [`DescValue`].
pub enum DescV {
    HScalar(ScalarV),
    HList(Seq<DescV>),
    HRecord(Seq<DescV>),
    HVariant(int, Seq<DescV>),
    HWhole(Val),
    HUnit,
    HDefault(Changed<ChangeV>),
}

/// The mathematical model of a [`ListEntry`].
pub enum ListEntryV {
    JAdded(int, DescV),
    JChanged(int, Box<ChangeV>),
    JRemoved(int, DescV),
}

/// The mathematical model of a [`FieldEntry`].
pub struct FieldEntryV {
    pub field: int,
    pub change: ChangeV,
}

/// The mathematical model of a [`VariantPayload`].
pub enum VariantPayloadV {
    QOne(Box<ChangeV>),
    QWrapped(Seq<Changed<ChangeV>>),
    QFields(Seq<FieldEntryV>),
}

/// The mathematical model of a [`ChangeValue`].
pub enum ChangeV {
    KScalar(ScalarChangeV),
    KList(Seq<ListEntryV>),
    KFields(Seq<FieldEntryV>),
    KBoth(int, VariantPayloadV),
    KDifferent(Box<DescV>, Box<DescV>),
}

impl DescValue {
    /// The mathematical model of this description.
    pub open spec fn model(&self) -> DescV
        decreases self,
    {
        match self {
            DescValue::DScalar(s) => DescV::HScalar(s.model()),
            DescValue::DList(ds) => DescV::HList(desc_model_list(ds@)),
            DescValue::DRecord(ds) => DescV::HRecord(desc_model_list(ds@)),
            DescValue::DVariant(idx, ds) => DescV::HVariant(*idx as int, desc_model_list(ds@)),
            DescValue::DWhole(v) => DescV::HWhole(v.model()),
            DescValue::DUnit => DescV::HUnit,
            DescValue::DDefault(c) => DescV::HDefault(changed_model(&**c)),
        }
    }
}

/// The models of a sequence of descriptions, in order.
pub open spec fn desc_model_list(ds: Seq<DescValue>) -> Seq<DescV>
    decreases ds,
{
    if ds.len() == 0 {
        Seq::empty()
    } else {
        desc_model_list(ds.drop_last()).push(ds.last().model())
    }
}

/// The model of a comparison result.
pub open spec fn changed_model(c: &Changed<ChangeValue>) -> Changed<ChangeV>
    decreases c,
{
    match c {
        Changed::Unchanged => Changed::Unchanged,
        Changed::Changed(ch) => Changed::Changed(ch.model()),
    }
}

impl ChangeValue {
    /// The mathematical model of this change.
    pub open spec fn model(&self) -> ChangeV
        decreases self,
    {
        match self {
            ChangeValue::CScalar(s) => ChangeV::KScalar(s.model()),
            ChangeValue::CList(es) => ChangeV::KList(entry_model_list(es@)),
            ChangeValue::CFields(fs) => ChangeV::KFields(field_entry_model_list(fs@)),
            ChangeValue::CBoth(idx, p) => ChangeV::KBoth(*idx as int, p.model()),
            ChangeValue::CDifferent(da, db) => ChangeV::KDifferent(
                Box::new(da.model()),
                Box::new(db.model()),
            ),
        }
    }
}

impl ListEntry {
    /// The mathematical model of this sequence edit.
    pub open spec fn model(&self) -> ListEntryV
        decreases self,
    {
        match self {
            ListEntry::LAdded(i, d) => ListEntryV::JAdded(*i as int, d.model()),
            ListEntry::LChanged(i, c) => ListEntryV::JChanged(*i as int, Box::new(c.model())),
            ListEntry::LRemoved(i, d) => ListEntryV::JRemoved(*i as int, d.model()),
        }
    }
}

/// The models of a sequence of sequence edits, in order.
pub open spec fn entry_model_list(es: Seq<ListEntry>) -> Seq<ListEntryV>
    decreases es,
{
    if es.len() == 0 {
        Seq::empty()
    } else {
        entry_model_list(es.drop_last()).push(es.last().model())
    }
}

impl FieldEntry {
    /// The mathematical model of this per-field entry.
    pub open spec fn model(&self) -> FieldEntryV
        decreases self,
    {
        FieldEntryV { field: self.field as int, change: self.change.model() }
    }
}

/// The models of a sequence of per-field entries, in order.
pub open spec fn field_entry_model_list(fs: Seq<FieldEntry>) -> Seq<FieldEntryV>
    decreases fs,
{
    if fs.len() == 0 {
        Seq::empty()
    } else {
        field_entry_model_list(fs.drop_last()).push(fs.last().model())
    }
}

impl VariantPayload {
    /// The mathematical model of this same-variant payload.
    pub open spec fn model(&self) -> VariantPayloadV
        decreases self,
    {
        match self {
            VariantPayload::POne(c) => VariantPayloadV::QOne(Box::new(c.model())),
            VariantPayload::PWrapped(cs) => VariantPayloadV::QWrapped(wrapped_model_list(cs@)),
            VariantPayload::PFields(fs) => VariantPayloadV::QFields(field_entry_model_list(fs@)),
        }
    }
}

/// The models of a sequence of per-field comparison results, in order.
pub open spec fn wrapped_model_list(cs: Seq<Changed<ChangeValue>>) -> Seq<Changed<ChangeV>>
    decreases cs,
{
    if cs.len() == 0 {
        Seq::empty()
    } else {
        wrapped_model_list(cs.drop_last()).push(changed_model(&cs.last()))
    }
}

/// The model of a scalar comparison result.
pub open spec fn scalar_changed_model(r: Changed<ScalarChange>) -> Changed<ScalarChangeV> {
    match r {
        Changed::Unchanged => Changed::Unchanged,
        Changed::Changed(sc) => Changed::Changed(sc.model()),
    }
}

/// Compare two scalar values: `Unchanged` exactly when they are equal, else
/// the tagged before/after pair.
pub fn cmp_scalar(a: &Scalar, b: &Scalar) -> (r: Changed<ScalarChange>)
    ensures
        scalar_changed_model(r) == spec_cmp_scalar(a.model(), b.model()),
{
    match (a, b) {
        (Scalar::VUnit, Scalar::VUnit) => Changed::Unchanged,
        (Scalar::VBool(x), Scalar::VBool(y)) => {
            if x != y {
                Changed::Changed(ScalarChange::CBool(BoolChange(*x, *y)))
            } else {
                Changed::Unchanged
            }
        },
        (Scalar::VU8(x), Scalar::VU8(y)) => {
            if x != y {
                Changed::Changed(ScalarChange::CU8(U8Change(*x, *y)))
            } else {
                Changed::Unchanged
            }
        },
        (Scalar::VI8(x), Scalar::VI8(y)) => {
            if x != y {
                Changed::Changed(ScalarChange::CI8(I8Change(*x, *y)))
            } else {
                Changed::Unchanged
            }
        },
        (Scalar::VU16(x), Scalar::VU16(y)) => {
            if x != y {
                Changed::Changed(ScalarChange::CU16(U16Change(*x, *y)))
            } else {
                Changed::Unchanged
            }
        },
        (Scalar::VI16(x), Scalar::VI16(y)) => {
            if x != y {
                Changed::Changed(ScalarChange::CI16(I16Change(*x, *y)))
            } else {
                Changed::Unchanged
            }
        },
        (Scalar::VU32(x), Scalar::VU32(y)) => {
            if x != y {
                Changed::Changed(ScalarChange::CU32(U32Change(*x, *y)))
            } else {
                Changed::Unchanged
            }
        },
        (Scalar::VI32(x), Scalar::VI32(y)) => {
            if x != y {
                Changed::Changed(ScalarChange::CI32(I32Change(*x, *y)))
            } else {
                Changed::Unchanged
            }
        },
        (Scalar::VU64(x), Scalar::VU64(y)) => {
            if x != y {
                Changed::Changed(ScalarChange::CU64(U64Change(*x, *y)))
            } else {
                Changed::Unchanged
            }
        },
        (Scalar::VI64(x), Scalar::VI64(y)) => {
            if x != y {
                Changed::Changed(ScalarChange::CI64(I64Change(*x, *y)))
            } else {
                Changed::Unchanged
            }
        },
        (Scalar::VUsize(x), Scalar::VUsize(y)) => {
            if x != y {
                Changed::Changed(ScalarChange::CUsize(UsizeChange(*x, *y)))
            } else {
                Changed::Unchanged
            }
        },
        (Scalar::VIsize(x), Scalar::VIsize(y)) => {
            if x != y {
                Changed::Changed(ScalarChange::CIsize(IsizeChange(*x, *y)))
            } else {
                Changed::Unchanged
            }
        },
        (Scalar::VChar(x), Scalar::VChar(y)) => {
            if x != y {
                Changed::Changed(ScalarChange::CChar(CharChange(*x, *y)))
            } else {
                Changed::Unchanged
            }
        },
        (Scalar::VStr(x), Scalar::VStr(y)) => {
            if *x != *y {
                Changed::Changed(ScalarChange::CStr(StringChange(x.clone(), y.clone())))
            } else {
                Changed::Unchanged
            }
        },
        (_, _) => Changed::Unchanged,
    }
}

/// Copy a scalar, preserving its model.
pub fn clone_scalar(s: &Scalar) -> (r: Scalar)
    ensures
        r.model() == s.model(),
{
    match s {
        Scalar::VUnit => Scalar::VUnit,
        Scalar::VBool(x) => Scalar::VBool(*x),
        Scalar::VU8(x) => Scalar::VU8(*x),
        Scalar::VI8(x) => Scalar::VI8(*x),
        Scalar::VU16(x) => Scalar::VU16(*x),
        Scalar::VI16(x) => Scalar::VI16(*x),
        Scalar::VU32(x) => Scalar::VU32(*x),
        Scalar::VI32(x) => Scalar::VI32(*x),
        Scalar::VU64(x) => Scalar::VU64(*x),
        Scalar::VI64(x) => Scalar::VI64(*x),
        Scalar::VUsize(x) => Scalar::VUsize(*x),
        Scalar::VIsize(x) => Scalar::VIsize(*x),
        Scalar::VChar(x) => Scalar::VChar(*x),
        Scalar::VStr(x) => Scalar::VStr(x.clone()),
    }
}

/// Copy a value, preserving its model.
pub fn clone_value(v: &Value) -> (r: Value)
    ensures
        r.model() == v.model(),
    decreases v,
{
    match v {
        Value::VScalar(s) => Value::VScalar(clone_scalar(s)),
        Value::VList(vs) => Value::VList(clone_value_list(vs)),
        Value::VRecord(vs) => Value::VRecord(clone_value_list(vs)),
        Value::VVariant(idx, vs) => Value::VVariant(*idx, clone_value_list(vs)),
    }
}

/// Copy a sequence of values, preserving their models.
fn clone_value_list(vs: &Vec<Value>) -> (r: Vec<Value>)
    ensures
        model_list(r@) == model_list(vs@),
    decreases vs,
{
    let mut r: Vec<Value> = Vec::new();
    let n = vs.len();
    let mut i: usize = 0;
    while i < n
        invariant
            i <= n,
            n == vs@.len(),
            r@.len() == i as int,
            forall|j: int| 0 <= j < i as int ==> r@[j].model() == vs@[j].model(),
        decreases n - i,
    {
        assert(decreases_to!(vs => vs@[i as int]));
        r.push(clone_value(&vs[i]));
        i = i + 1;
    }
    proof {
        lemma_model_list(r@);
        lemma_model_list(vs@);
        assert(model_list(r@) =~= model_list(vs@));
    }
    r
}

/// Evaluate a synthetic expression over the fields of a product value.
pub fn eval_synth(e: &SynthExpr, fields: &Vec<Value>) -> (r: Scalar)
    ensures
        r.model() == spec_eval_synth(*e, model_list(fields@)),
{
    proof {
        lemma_model_list(fields@);
    }
    match e {
        SynthExpr::SumU8(i) => {
            if *i < fields.len() {
                match &fields[*i] {
                    Value::VList(elems) => {
                        let mut acc: u8 = 0;
                        let n = elems.len();
                        let mut j: usize = 0;
                        proof {
                            lemma_model_list(elems@);
                        }
                        while j < n
                            invariant
                                j <= n,
                                n == elems@.len(),
                                forall|k: int|
                                    0 <= k < elems@.len() ==> model_list(elems@)[k] == elems@[k].model(),
                                model_list(elems@).len() == elems@.len(),
                                acc == sum_u8(model_list(elems@).take(j as int)),
                            decreases n - j,
                        {
                            let ghost pre = model_list(elems@).take(j as int);
                            let ghost post = model_list(elems@).take(j as int + 1);
                            assert(post.drop_last() =~= pre);
                            assert(post.last() == elems@[j as int].model());
                            match &elems[j] {
                                Value::VScalar(Scalar::VU8(x)) => {
                                    acc = (((acc as u16) + (*x as u16)) % 256) as u8;
                                },
                                _ => {},
                            }
                            j = j + 1;
                        }
                        proof {
                            assert(model_list(elems@).take(n as int) =~= model_list(elems@));
                        }
                        Scalar::VU8(acc)
                    },
                    _ => Scalar::VU8(0),
                }
            } else {
                Scalar::VU8(0)
            }
        },
        SynthExpr::LitStr(s) => Scalar::VStr(s.clone()),
    }
}

/// The smallest value of a declared element type.
pub fn default_for_elem(es: &ElemSchema) -> (r: Value)
    ensures
        r.model() == default_elem(*es),
    decreases es, 0int,
{
    match es {
        ElemSchema::EScalar(k) => Value::VScalar(
            match k {
                ScalarKind::KUnit => Scalar::VUnit,
                ScalarKind::KBool => Scalar::VBool(false),
                ScalarKind::KU8 => Scalar::VU8(0),
                ScalarKind::KI8 => Scalar::VI8(0),
                ScalarKind::KU16 => Scalar::VU16(0),
                ScalarKind::KI16 => Scalar::VI16(0),
                ScalarKind::KU32 => Scalar::VU32(0),
                ScalarKind::KI32 => Scalar::VI32(0),
                ScalarKind::KU64 => Scalar::VU64(0),
                ScalarKind::KI64 => Scalar::VI64(0),
                ScalarKind::KUsize => Scalar::VUsize(0),
                ScalarKind::KIsize => Scalar::VIsize(0),
                ScalarKind::KChar => Scalar::VChar('\0'),
                ScalarKind::KStr => Scalar::VStr(String::new()),
            },
        ),
        ElemSchema::EList(_inner) => Value::VList(Vec::new()),
        ElemSchema::ENested(ts) => default_of_type(ts),
    }
}

/// The defaults of a sequence of declared fields, in order.
fn default_fields_of(fields: &Vec<FieldSchema>) -> (r: Vec<Value>)
    ensures
        model_list(r@) == default_fields(fields@),
    decreases fields, 0int,
{
    let mut r: Vec<Value> = Vec::new();
    let n = fields.len();
    let mut i: usize = 0;
    while i < n
        invariant
            i <= n,
            n == fields@.len(),
            r@.len() == i as int,
            model_list(r@) == default_fields(fields@.take(i as int)),
        decreases n - i,
    {
        let ghost pre = fields@.take(i as int);
        let ghost post = fields@.take(i as int + 1);
        assert(post.drop_last() =~= pre);
        assert(decreases_to!(fields => fields@[i as int].ty));
        let d = default_for_elem(&fields[i].ty);
        proof {
            lemma_model_list(r@.push(d));
            lemma_model_list(r@);
            assert(model_list(r@.push(d)) =~= model_list(r@).push(d.model()));
        }
        r.push(d);
        i = i + 1;
    }
    proof {
        assert(fields@.take(n as int) =~= fields@);
    }
    r
}

/// The default value of a declared composite type.
pub fn default_of_type(ts: &TypeSchema) -> (r: Value)
    ensures
        r.model() == default_val_of(*ts),
    decreases ts, 1int,
{
    match &ts.data {
        ShapeData::DStruct(_named, fields) => Value::VRecord(default_fields_of(fields)),
        ShapeData::DEnum(variants) => {
            if variants.len() > 0 {
                Value::VVariant(0, default_fields_of(&variants[0].fields))
            } else {
                Value::VVariant(0, Vec::new())
            }
        },
    }
}

/// The effective-field count is at least zero and at most the width sum.
pub proof fn lemma_eff_count_bounds(fields: Seq<FieldSchema>)
    ensures
        0 <= eff_count(fields) <= field_width_sum(fields),
    decreases fields,
{
    if fields.len() > 0 {
        lemma_eff_count_bounds(fields.drop_last());
    }
}

/// The width sum of a prefix is at most the width sum of the whole.
pub proof fn lemma_width_take(fields: Seq<FieldSchema>, i: int)
    requires
        0 <= i <= fields.len(),
    ensures
        field_width_sum(fields.take(i)) <= field_width_sum(fields),
    decreases fields.len() - i,
{
    if i == fields.len() {
        assert(fields.take(i) =~= fields);
    } else {
        lemma_width_take(fields, i + 1);
        assert(fields.take(i + 1).drop_last() =~= fields.take(i));
        assert(fields.take(i + 1).last() == fields[i]);
    }
}

/// `desc_model_list` maps each description to its model.
pub proof fn lemma_desc_model_list(ds: Seq<DescValue>)
    ensures
        desc_model_list(ds).len() == ds.len(),
        forall|i: int| 0 <= i < ds.len() ==> desc_model_list(ds)[i] == ds[i].model(),
    decreases ds,
{
    if ds.len() > 0 {
        lemma_desc_model_list(ds.drop_last());
    }
}

/// `entry_model_list` maps each edit to its model.
pub proof fn lemma_entry_model_list(es: Seq<ListEntry>)
    ensures
        entry_model_list(es).len() == es.len(),
        forall|i: int| 0 <= i < es.len() ==> entry_model_list(es)[i] == es[i].model(),
    decreases es,
{
    if es.len() > 0 {
        lemma_entry_model_list(es.drop_last());
    }
}

/// `field_entry_model_list` maps each entry to its model.
pub proof fn lemma_field_entry_model_list(fs: Seq<FieldEntry>)
    ensures
        field_entry_model_list(fs).len() == fs.len(),
        forall|i: int| 0 <= i < fs.len() ==> field_entry_model_list(fs)[i] == fs[i].model(),
    decreases fs,
{
    if fs.len() > 0 {
        lemma_field_entry_model_list(fs.drop_last());
    }
}

/// What comparing two scalar models yields: `Unchanged` exactly when they are
/// equal, else the tagged before/after pair.  Scalars of differing kinds never
/// arise under one schema; they are reported unchanged for totality.
pub open spec fn spec_cmp_scalar(a: ScalarV, b: ScalarV) -> Changed<ScalarChangeV> {
    if a == b {
        Changed::Unchanged
    } else {
        match (a, b) {
            (ScalarV::MBool(x), ScalarV::MBool(y)) => Changed::Changed(ScalarChangeV::NBool(x, y)),
            (ScalarV::MU8(x), ScalarV::MU8(y)) => Changed::Changed(ScalarChangeV::NU8(x, y)),
            (ScalarV::MI8(x), ScalarV::MI8(y)) => Changed::Changed(ScalarChangeV::NI8(x, y)),
            (ScalarV::MU16(x), ScalarV::MU16(y)) => Changed::Changed(ScalarChangeV::NU16(x, y)),
            (ScalarV::MI16(x), ScalarV::MI16(y)) => Changed::Changed(ScalarChangeV::NI16(x, y)),
            (ScalarV::MU32(x), ScalarV::MU32(y)) => Changed::Changed(ScalarChangeV::NU32(x, y)),
            (ScalarV::MI32(x), ScalarV::MI32(y)) => Changed::Changed(ScalarChangeV::NI32(x, y)),
            (ScalarV::MU64(x), ScalarV::MU64(y)) => Changed::Changed(ScalarChangeV::NU64(x, y)),
            (ScalarV::MI64(x), ScalarV::MI64(y)) => Changed::Changed(ScalarChangeV::NI64(x, y)),
            (ScalarV::MUsize(x), ScalarV::MUsize(y)) => Changed::Changed(
                ScalarChangeV::NUsize(x, y),
            ),
            (ScalarV::MIsize(x), ScalarV::MIsize(y)) => Changed::Changed(
                ScalarChangeV::NIsize(x, y),
            ),
            (ScalarV::MChar(x), ScalarV::MChar(y)) => Changed::Changed(ScalarChangeV::NChar(x, y)),
            (ScalarV::MStr(x), ScalarV::MStr(y)) => Changed::Changed(ScalarChangeV::NStr(x, y)),
            _ => Changed::Unchanged,
        }
    }
}

/// The wrapping 8-bit sum of the byte elements of a list model; elements that
/// are not bytes contribute nothing.
pub open spec fn sum_u8(elems: Seq<Val>) -> u8
    decreases elems,
{
    if elems.len() == 0 {
        0u8
    } else {
        let rest = sum_u8(elems.drop_last());
        match elems.last() {
            Val::MScalar(ScalarV::MU8(x)) => ((rest + x) % 256) as u8,
            _ => rest,
        }
    }
}

/// What a synthetic expression evaluates to over the fields of the containing
/// product value.
pub open spec fn spec_eval_synth(e: SynthExpr, fields: Seq<Val>) -> ScalarV {
    match e {
        SynthExpr::SumU8(i) => {
            if 0 <= i < fields.len() {
                match fields[i as int] {
                    Val::MList(elems) => ScalarV::MU8(sum_u8(elems)),
                    _ => ScalarV::MU8(0),
                }
            } else {
                ScalarV::MU8(0)
            }
        },
        SynthExpr::LitStr(s) => ScalarV::MStr(s@),
    }
}

/// The number of effective fields of a product: synthetic fields count, and
/// ignored stored fields do not.
pub open spec fn eff_count(fields: Seq<FieldSchema>) -> int
    decreases fields,
{
    if fields.len() == 0 {
        0
    } else {
        eff_count(fields.drop_last()) + fields.last().synthetics@.len() + (if fields.last().ignored {
            0int
        } else {
            1int
        })
    }
}

/// The field values of a product value model, or empty for any other shape.
pub open spec fn record_fields_of(v: Val) -> Seq<Val> {
    match v {
        Val::MRecord(vals) => vals,
        _ => Seq::empty(),
    }
}

/// The default scalar of a kind: zero, `false`, the nul character, empty text.
pub open spec fn default_scalar(k: ScalarKind) -> ScalarV {
    match k {
        ScalarKind::KUnit => ScalarV::MUnit,
        ScalarKind::KBool => ScalarV::MBool(false),
        ScalarKind::KU8 => ScalarV::MU8(0),
        ScalarKind::KI8 => ScalarV::MI8(0),
        ScalarKind::KU16 => ScalarV::MU16(0),
        ScalarKind::KI16 => ScalarV::MI16(0),
        ScalarKind::KU32 => ScalarV::MU32(0),
        ScalarKind::KI32 => ScalarV::MI32(0),
        ScalarKind::KU64 => ScalarV::MU64(0),
        ScalarKind::KI64 => ScalarV::MI64(0),
        ScalarKind::KUsize => ScalarV::MUsize(0),
        ScalarKind::KIsize => ScalarV::MIsize(0),
        ScalarKind::KChar => ScalarV::MChar('\0'),
        ScalarKind::KStr => ScalarV::MStr(Seq::empty()),
    }
}

/// The default value of an element type: default scalars, empty sequences,
/// and the default of a nested type.
pub open spec fn default_elem(es: ElemSchema) -> Val
    decreases es, 0int,
{
    match es {
        ElemSchema::EScalar(k) => Val::MScalar(default_scalar(k)),
        ElemSchema::EList(_inner) => Val::MList(Seq::empty()),
        ElemSchema::ENested(ts) => default_val_of(*ts),
    }
}

/// The defaults of a sequence of declared fields, in order.
pub open spec fn default_fields(fields: Seq<FieldSchema>) -> Seq<Val>
    decreases fields,
{
    if fields.len() == 0 {
        Seq::empty()
    } else {
        default_fields(fields.drop_last()).push(default_elem(fields.last().ty))
    }
}

/// The default value of a declared composite type: a product of field
/// defaults; for a sum, its first variant with field defaults.
pub open spec fn default_val_of(ts: TypeSchema) -> Val
    decreases ts, 1int,
{
    match ts.data {
        ShapeData::DStruct(_named, fields) => Val::MRecord(default_fields(fields@)),
        ShapeData::DEnum(variants) => {
            if variants@.len() > 0 {
                Val::MVariant(0, default_fields(variants@[0].fields@))
            } else {
                Val::MVariant(0, Seq::empty())
            }
        },
    }
}

/// The descriptions of the synthetic fields computed from a whole product
/// value, in order.
pub open spec fn spec_synth_descs(synths: Seq<SynthField>, whole: Seq<Val>) -> Seq<DescV>
    decreases synths,
{
    if synths.len() == 0 {
        Seq::empty()
    } else {
        spec_synth_descs(synths.drop_last(), whole).push(
            DescV::HScalar(spec_eval_synth(synths.last().expr, whole)),
        )
    }
}

/// What describing a value of an element type yields.
pub open spec fn spec_describe_elem(es: ElemSchema, v: Val) -> DescV
    decreases es, 0int,
{
    match es {
        ElemSchema::EScalar(_k) => match v {
            Val::MScalar(s) => DescV::HScalar(s),
            _ => DescV::HUnit,
        },
        ElemSchema::EList(inner) => match v {
            Val::MList(elems) => DescV::HList(spec_describe_list(*inner, elems)),
            _ => DescV::HUnit,
        },
        ElemSchema::ENested(ts) => spec_describe_type(*ts, v),
    }
}

/// The descriptions of the elements of a sequence, in order.
pub open spec fn spec_describe_list(inner: ElemSchema, elems: Seq<Val>) -> Seq<DescV>
    decreases inner, elems.len(),
{
    if elems.len() == 0 {
        Seq::empty()
    } else {
        spec_describe_list(inner, elems.drop_last()).push(
            spec_describe_elem(inner, elems.last()),
        )
    }
}

/// The descriptions of the effective fields of a product or variant, in
/// order: each field's synthetics (products only), then the field itself
/// unless it is ignored.
pub open spec fn spec_desc_fields(
    fields: Seq<FieldSchema>,
    vals: Seq<Val>,
    whole: Seq<Val>,
    with_synths: bool,
) -> Seq<DescV>
    decreases fields, 0int,
{
    if fields.len() == 0 {
        Seq::empty()
    } else {
        let rest = spec_desc_fields(fields.drop_last(), vals.drop_last(), whole, with_synths);
        let synths = if with_synths {
            spec_synth_descs(fields.last().synthetics@, whole)
        } else {
            Seq::empty()
        };
        let own: Seq<DescV> = if fields.last().ignored {
            Seq::empty()
        } else {
            seq![spec_describe_elem(fields.last().ty, vals.last())]
        };
        rest + synths + own
    }
}

/// What describing a value of a declared composite type yields, after the
/// per-type directives: a no-description type has the unit description; an
/// explicit override computes a scalar description; a self-describing type is
/// its own description; a compare-against-default product describes itself as
/// the change-set from the type's default; and otherwise the mirror of the
/// shape with every effective field described.
pub open spec fn spec_describe_type(ts: TypeSchema, v: Val) -> DescV
    decreases ts, (if ts.data is DStruct {
        3int
    } else {
        1int
    }),
{
    if ts.attrs.no_description {
        DescV::HUnit
    } else if ts.attrs.describe_override is Some {
        DescV::HScalar(spec_eval_synth(ts.attrs.describe_override->0, record_fields_of(v)))
    } else if ts.attrs.self_describing {
        DescV::HWhole(v)
    } else if ts.attrs.compare_default && ts.data is DStruct {
        DescV::HDefault(spec_cmp_type(ts, default_val_of(ts), v))
    } else {
        match ts.data {
            ShapeData::DStruct(_named, fields) => match v {
                Val::MRecord(vals) => DescV::HRecord(spec_desc_fields(fields@, vals, vals, true)),
                _ => DescV::HUnit,
            },
            ShapeData::DEnum(variants) => match v {
                Val::MVariant(i, vals) => {
                    if 0 <= i < variants@.len() {
                        DescV::HVariant(
                            i,
                            spec_desc_fields(variants@[i].fields@, vals, vals, false),
                        )
                    } else {
                        DescV::HUnit
                    }
                },
                _ => DescV::HUnit,
            },
        }
    }
}

/// The change entries contributed by the synthetic fields of one stored
/// field, at effective indices starting at `base`: one entry per synthetic
/// whose value differs between the two whole product values.
pub open spec fn spec_synth_entries(
    synths: Seq<SynthField>,
    base: int,
    awhole: Seq<Val>,
    bwhole: Seq<Val>,
) -> Seq<FieldEntryV>
    decreases synths,
{
    if synths.len() == 0 {
        Seq::empty()
    } else {
        let rest = spec_synth_entries(synths.drop_last(), base, awhole, bwhole);
        match spec_cmp_scalar(
            spec_eval_synth(synths.last().expr, awhole),
            spec_eval_synth(synths.last().expr, bwhole),
        ) {
            Changed::Unchanged => rest,
            Changed::Changed(sc) => rest.push(
                FieldEntryV { field: base + synths.len() - 1, change: ChangeV::KScalar(sc) },
            ),
        }
    }
}

/// The change entries contributed by one stored field: its synthetics'
/// entries, then its own comparison when it is not ignored and differs.
pub open spec fn spec_field_block(
    field: FieldSchema,
    base: int,
    aval: Val,
    bval: Val,
    awhole: Seq<Val>,
    bwhole: Seq<Val>,
) -> Seq<FieldEntryV>
    decreases field, 1int,
{
    let synths = spec_synth_entries(field.synthetics@, base, awhole, bwhole);
    if field.ignored {
        synths
    } else {
        match spec_cmp_elem(field.ty, aval, bval) {
            Changed::Unchanged => synths,
            Changed::Changed(c) => synths.push(
                FieldEntryV { field: base + field.synthetics@.len(), change: c },
            ),
        }
    }
}

/// The minimal per-field change list of a product or flattened variant: the
/// blocks of all fields in order, holding an entry only for each effective
/// field that differs.
pub open spec fn spec_cmp_fields(
    fields: Seq<FieldSchema>,
    avals: Seq<Val>,
    bvals: Seq<Val>,
    awhole: Seq<Val>,
    bwhole: Seq<Val>,
) -> Seq<FieldEntryV>
    decreases fields, 2int,
{
    if fields.len() == 0 {
        Seq::empty()
    } else {
        spec_cmp_fields(fields.drop_last(), avals.drop_last(), bvals.drop_last(), awhole, bwhole)
            + spec_field_block(
            fields.last(),
            eff_count(fields.drop_last()),
            avals.last(),
            bvals.last(),
            awhole,
            bwhole,
        )
    }
}

/// One comparison result per kept (non-ignored) field of a variant, in order,
/// each `Unchanged` or `Changed` on its own.
pub open spec fn spec_cmp_wrapped(
    fields: Seq<FieldSchema>,
    avals: Seq<Val>,
    bvals: Seq<Val>,
) -> Seq<Changed<ChangeV>>
    decreases fields, 0int,
{
    if fields.len() == 0 {
        Seq::empty()
    } else {
        let rest = spec_cmp_wrapped(fields.drop_last(), avals.drop_last(), bvals.drop_last());
        if fields.last().ignored {
            rest
        } else {
            rest.push(spec_cmp_elem(fields.last().ty, avals.last(), bvals.last()))
        }
    }
}

/// Whether every per-field comparison in a sequence reports no change.
pub open spec fn all_unchanged(cs: Seq<Changed<ChangeV>>) -> bool {
    forall|k: int| 0 <= k < cs.len() ==> cs[k] is Unchanged
}

/// The positional edit, if any, that the sequence diff holds for index `i`:
/// within both sequences, an in-place change exactly when the elements
/// differ; past the shorter one, a removal (old longer) or addition (new
/// longer) describing that sequence's element.
pub open spec fn spec_list_entry_at(inner: ElemSchema, avals: Seq<Val>, bvals: Seq<Val>, i: int) -> Seq<
    ListEntryV,
>
    decreases inner, 2int,
{
    let m = if avals.len() <= bvals.len() {
        avals.len() as int
    } else {
        bvals.len() as int
    };
    if i < m {
        match spec_cmp_elem(inner, avals[i], bvals[i]) {
            Changed::Unchanged => Seq::empty(),
            Changed::Changed(c) => seq![ListEntryV::JChanged(i, Box::new(c))],
        }
    } else if i < avals.len() {
        seq![ListEntryV::JRemoved(i, spec_describe_elem(inner, avals[i]))]
    } else if i < bvals.len() {
        seq![ListEntryV::JAdded(i, spec_describe_elem(inner, bvals[i]))]
    } else {
        Seq::empty()
    }
}

/// The positional edits of the sequence diff for all indices below `upto`.
pub open spec fn spec_cmp_list(inner: ElemSchema, avals: Seq<Val>, bvals: Seq<Val>, upto: int) -> Seq<
    ListEntryV,
>
    decreases inner, 3int, upto,
{
    if upto <= 0 {
        Seq::empty()
    } else {
        spec_cmp_list(inner, avals, bvals, upto - 1) + spec_list_entry_at(
            inner,
            avals,
            bvals,
            upto - 1,
        )
    }
}

/// The length of the longer of two sequences.
pub open spec fn longer_len(avals: Seq<Val>, bvals: Seq<Val>) -> int {
    if avals.len() <= bvals.len() {
        bvals.len() as int
    } else {
        avals.len() as int
    }
}

/// What comparing two values of an element type yields: scalars by equality,
/// sequences by the positional diff, nested types by their own rule.
pub open spec fn spec_cmp_elem(es: ElemSchema, a: Val, b: Val) -> Changed<ChangeV>
    decreases es, 0int,
{
    match es {
        ElemSchema::EScalar(_k) => match (a, b) {
            (Val::MScalar(x), Val::MScalar(y)) => match spec_cmp_scalar(x, y) {
                Changed::Unchanged => Changed::Unchanged,
                Changed::Changed(sc) => Changed::Changed(ChangeV::KScalar(sc)),
            },
            _ => Changed::Unchanged,
        },
        ElemSchema::EList(inner) => match (a, b) {
            (Val::MList(xs), Val::MList(ys)) => {
                let es2 = spec_cmp_list(*inner, xs, ys, longer_len(xs, ys));
                if es2.len() == 0 {
                    Changed::Unchanged
                } else {
                    Changed::Changed(ChangeV::KList(es2))
                }
            },
            _ => Changed::Unchanged,
        },
        ElemSchema::ENested(ts) => spec_cmp_type(*ts, a, b),
    }
}

/// What comparing two values of a declared composite type yields.
///
/// A product with no effective fields can never differ.  A product with
/// exactly one effective field reports that field's change directly, with no
/// wrapping list.  A product with more reports the minimal list of per-field
/// entries, present exactly when at least one differs.  Two values of the
/// same variant report that variant's payload when any kept field differs;
/// two values of different variants report the pair of whole-value
/// descriptions.
pub open spec fn spec_cmp_type(ts: TypeSchema, a: Val, b: Val) -> Changed<ChangeV>
    decreases ts, 2int,
{
    match ts.data {
        ShapeData::DStruct(_named, fields) => match (a, b) {
            (Val::MRecord(av), Val::MRecord(bv)) => {
                let entries = spec_cmp_fields(fields@, av, bv, av, bv);
                if entries.len() == 0 {
                    Changed::Unchanged
                } else if eff_count(fields@) == 1 {
                    Changed::Changed(entries[0].change)
                } else {
                    Changed::Changed(ChangeV::KFields(entries))
                }
            },
            _ => Changed::Unchanged,
        },
        ShapeData::DEnum(variants) => match (a, b) {
            (Val::MVariant(i, av), Val::MVariant(j, bv)) => {
                if i != j {
                    Changed::Changed(
                        ChangeV::KDifferent(
                            Box::new(spec_describe_type(ts, a)),
                            Box::new(spec_describe_type(ts, b)),
                        ),
                    )
                } else if !(0 <= i < variants@.len()) {
                    Changed::Unchanged
                } else {
                    let fields = variants@[i].fields@;
                    let wrapped = spec_cmp_wrapped(fields, av, bv);
                    if all_unchanged(wrapped) {
                        Changed::Unchanged
                    } else if fields.len() == 1 {
                        match spec_cmp_elem(fields[0].ty, av[0], bv[0]) {
                            Changed::Unchanged => Changed::Unchanged,
                            Changed::Changed(c) => Changed::Changed(
                                ChangeV::KBoth(i, VariantPayloadV::QOne(Box::new(c))),
                            ),
                        }
                    } else if ts.attrs.variant_struct_fields {
                        Changed::Changed(
                            ChangeV::KBoth(
                                i,
                                VariantPayloadV::QFields(spec_cmp_fields(fields, av, bv, av, bv)),
                            ),
                        )
                    } else {
                        Changed::Changed(
                            ChangeV::KBoth(i, VariantPayloadV::QWrapped(wrapped)),
                        )
                    }
                }
            },
            _ => Changed::Unchanged,
        },
    }
}

/// `wrapped_model_list` maps each result to its model.
pub proof fn lemma_wrapped_model_list(cs: Seq<Changed<ChangeValue>>)
    ensures
        wrapped_model_list(cs).len() == cs.len(),
        forall|i: int| 0 <= i < cs.len() ==> wrapped_model_list(cs)[i] == changed_model(&cs[i]),
    decreases cs,
{
    if cs.len() > 0 {
        lemma_wrapped_model_list(cs.drop_last());
    }
}

/// The default value of a declared type, where it has one, conforms to the
/// type.
pub proof fn lemma_default_matches(ts: TypeSchema)
    requires
        type_has_default(ts),
    ensures
        type_matches(ts, default_val_of(ts)),
    decreases ts, 2int,
{
    match &ts.data {
        ShapeData::DStruct(_named, fields) => {
            lemma_default_fields_match(fields@);
            assert(ts.data is DStruct);
            assert(default_val_of(ts) == Val::MRecord(default_fields(fields@)));
        },
        ShapeData::DEnum(variants) => {
            assert(ts.data is DEnum);
            lemma_default_fields_match(variants@[0].fields@);
            assert(default_val_of(ts) == Val::MVariant(0, default_fields(variants@[0].fields@)));
        },
    }
}

/// The defaults of a defaultable field list conform to the fields.
proof fn lemma_default_fields_match(fields: Seq<FieldSchema>)
    requires
        fields_have_default(fields),
    ensures
        default_fields(fields).len() == fields.len(),
        fields_match(fields, default_fields(fields)),
    decreases fields, 1int,
{
    if fields.len() > 0 {
        lemma_default_fields_match(fields.drop_last());
        lemma_default_elem_matches(fields.last().ty);
        assert(default_fields(fields).drop_last() =~= default_fields(fields.drop_last()));
    }
}

/// The default of a defaultable element type conforms to it.
proof fn lemma_default_elem_matches(es: ElemSchema)
    requires
        elem_has_default(es),
    ensures
        elem_matches(es, default_elem(es)),
    decreases es, 3int,
{
    match es {
        ElemSchema::EScalar(_k) => {
        },
        ElemSchema::EList(_inner) => {
        },
        ElemSchema::ENested(ts) => {
            lemma_default_matches(*ts);
        },
    }
}

/// Count the effective fields of a product's field list.
pub fn eff_count_of(fields: &Vec<FieldSchema>) -> (r: usize)
    requires
        field_width_sum(fields@) <= usize::MAX,
    ensures
        r as int == eff_count(fields@),
{
    let mut r: usize = 0;
    let n = fields.len();
    let mut i: usize = 0;
    while i < n
        invariant
            i <= n,
            n == fields@.len(),
            field_width_sum(fields@) <= usize::MAX,
            r as int == eff_count(fields@.take(i as int)),
        decreases n - i,
    {
        proof {
            lemma_eff_count_bounds(fields@.take(i as int + 1));
            lemma_width_take(fields@, i as int + 1);
            assert(fields@.take(i as int + 1).drop_last() =~= fields@.take(i as int));
            assert(fields@.take(i as int + 1).last() == fields@[i as int]);
        }
        r = r + fields[i].synthetics.len() + (if fields[i].ignored {
            0
        } else {
            1
        });
        i = i + 1;
    }
    proof {
        assert(fields@.take(n as int) =~= fields@);
    }
    r
}

/// Describe a value of an element type: scalars are their own description,
/// sequences describe each element, nested types follow their own rule.
pub fn describe_elem(es: &ElemSchema, v: &Value) -> (r: DescValue)
    requires
        elem_wf(*es),
        elem_matches(*es, v.model()),
    ensures
        r.model() == spec_describe_elem(*es, v.model()),
    decreases es, 4int,
{
    match (es, v) {
        (ElemSchema::EScalar(_k), Value::VScalar(s)) => DescValue::DScalar(clone_scalar(s)),
        (ElemSchema::EList(inner), Value::VList(elems)) => DescValue::DList(
            describe_list(inner, elems),
        ),
        (ElemSchema::ENested(ts), _) => describe_value(ts, v),
        (_, _) => DescValue::DUnit,
    }
}

/// Describe each element of a sequence, in order.
fn describe_list(inner: &ElemSchema, elems: &Vec<Value>) -> (r: Vec<DescValue>)
    requires
        elem_wf(*inner),
        list_matches(*inner, model_list(elems@)),
    ensures
        desc_model_list(r@) == spec_describe_list(*inner, model_list(elems@)),
    decreases inner, 5int,
{
    let ghost elemsm = model_list(elems@);
    proof {
        lemma_model_list(elems@);
        lemma_list_matches_index(*inner, elemsm);
    }
    let mut ds: Vec<DescValue> = Vec::new();
    let n = elems.len();
    let mut i: usize = 0;
    while i < n
        invariant
            i <= n,
            n == elems@.len(),
            elem_wf(*inner),
            elemsm == model_list(elems@),
            elemsm.len() == elems@.len(),
            forall|k: int| 0 <= k < elems@.len() ==> elemsm[k] == elems@[k].model(),
            forall|k: int| 0 <= k < elemsm.len() ==> elem_matches(*inner, #[trigger] elemsm[k]),
            desc_model_list(ds@) == spec_describe_list(*inner, elemsm.take(i as int)),
        decreases n - i,
    {
        let d = describe_elem(inner, &elems[i]);
        proof {
            assert(elemsm.take(i as int + 1).drop_last() =~= elemsm.take(i as int));
            assert(elemsm.take(i as int + 1).last() == elems@[i as int].model());
            lemma_desc_model_list(ds@.push(d));
            lemma_desc_model_list(ds@);
            assert(desc_model_list(ds@.push(d)) =~= desc_model_list(ds@).push(d.model()));
        }
        ds.push(d);
        i = i + 1;
    }
    proof {
        assert(elemsm.take(n as int) =~= elemsm);
    }
    ds
}

/// Describe, in order, the effective fields of a product or variant.
fn describe_fields(fields: &Vec<FieldSchema>, vals: &Vec<Value>, with_synths: bool) -> (r: Vec<
    DescValue,
>)
    requires
        fields_wf(fields@),
        vals@.len() == fields@.len(),
        fields_match(fields@, model_list(vals@)),
    ensures
        desc_model_list(r@) == spec_desc_fields(
            fields@,
            model_list(vals@),
            model_list(vals@),
            with_synths,
        ),
    decreases fields, 5int,
{
    let ghost valsm = model_list(vals@);
    proof {
        lemma_model_list(vals@);
        lemma_fields_match_index(fields@, valsm);
        lemma_fields_wf_index(fields@);
    }
    let mut r: Vec<DescValue> = Vec::new();
    let n = fields.len();
    let mut i: usize = 0;
    while i < n
        invariant
            i <= n,
            n == fields@.len(),
            fields_wf(fields@),
            valsm == model_list(vals@),
            valsm.len() == vals@.len(),
            vals@.len() == fields@.len(),
            forall|k: int| 0 <= k < vals@.len() ==> valsm[k] == vals@[k].model(),
            forall|k: int| 0 <= k < fields@.len() ==> elem_matches(#[trigger] fields@[k].ty, valsm[k]),
            forall|k: int| 0 <= k < fields@.len() ==> elem_wf(#[trigger] fields@[k].ty),
            desc_model_list(r@) == spec_desc_fields(
                fields@.take(i as int),
                valsm.take(i as int),
                valsm,
                with_synths,
            ),
        decreases n - i,
    {
        let ghost pre = spec_desc_fields(
            fields@.take(i as int),
            valsm.take(i as int),
            valsm,
            with_synths,
        );
        proof {
            assert(fields@.take(i as int + 1).drop_last() =~= fields@.take(i as int));
            assert(valsm.take(i as int + 1).drop_last() =~= valsm.take(i as int));
            assert(fields@.take(i as int + 1).last() == fields@[i as int]);
            assert(valsm.take(i as int + 1).last() == valsm[i as int]);
        }
        if with_synths {
            let synths = &fields[i].synthetics;
            let ghost synthsm = synths@;
            let m = synths.len();
            let mut k: usize = 0;
            while k < m
                invariant
                    k <= m,
                    m == synthsm.len(),
                    synthsm == synths@,
                    synths == &fields@[i as int].synthetics,
                    i < n,
                    n == fields@.len(),
                    valsm == model_list(vals@),
                    valsm.len() == vals@.len(),
                    vals@.len() == fields@.len(),
                    forall|q: int| 0 <= q < vals@.len() ==> valsm[q] == vals@[q].model(),
                    desc_model_list(r@) == pre + spec_synth_descs(synthsm.take(k as int), valsm),
                decreases m - k,
            {
                proof {
                    assert(synthsm.take(k as int + 1).drop_last() =~= synthsm.take(k as int));
                    assert(synthsm.take(k as int + 1).last() == synthsm[k as int]);
                }
                let d = DescValue::DScalar(eval_synth(&synths[k].expr, vals));
                proof {
                    lemma_desc_model_list(r@.push(d));
                    lemma_desc_model_list(r@);
                    assert(desc_model_list(r@.push(d)) =~= desc_model_list(r@).push(d.model()));
                }
                r.push(d);
                k = k + 1;
            }
            proof {
                assert(synthsm.take(m as int) =~= synthsm);
            }
        }
        if !fields[i].ignored {
            assert(decreases_to!(fields => fields@[i as int].ty));
            let d = describe_elem(&fields[i].ty, &vals[i]);
            proof {
                lemma_desc_model_list(r@.push(d));
                lemma_desc_model_list(r@);
                assert(desc_model_list(r@.push(d)) =~= desc_model_list(r@).push(d.model()));
            }
            r.push(d);
        }
        proof {
            let synth_part = if with_synths {
                spec_synth_descs(fields@[i as int].synthetics@, valsm)
            } else {
                Seq::<DescV>::empty()
            };
            let own_part: Seq<DescV> = if fields@[i as int].ignored {
                Seq::empty()
            } else {
                seq![spec_describe_elem(fields@[i as int].ty, valsm[i as int])]
            };
            assert(desc_model_list(r@) =~= pre + synth_part + own_part);
        }
        i = i + 1;
    }
    proof {
        assert(fields@.take(n as int) =~= fields@);
        assert(valsm.take(n as int) =~= valsm);
    }
    r
}

/// Describe a value of a declared composite type, honouring the per-type
/// directives: an explicit override, self-description, description as the
/// change-set from the default value, no description, or the mirror of the
/// shape with every effective field described.
pub fn describe_value(ts: &TypeSchema, v: &Value) -> (r: DescValue)
    requires
        schema_wf(*ts),
        type_matches(*ts, v.model()),
    ensures
        r.model() == spec_describe_type(*ts, v.model()),
    decreases ts, (if ts.data is DStruct {
        3int
    } else {
        1int
    }),
{
    if ts.attrs.no_description {
        return DescValue::DUnit;
    }
    if let Option::Some(e) = &ts.attrs.describe_override {
        let d = match v {
            Value::VRecord(vs) => {
                proof {
                    lemma_model_list(vs@);
                }
                eval_synth(e, vs)
            },
            _ => {
                let empty: Vec<Value> = Vec::new();
                eval_synth(e, &empty)
            },
        };
        DescValue::DScalar(d)
    } else if ts.attrs.self_describing {
        DescValue::DWhole(Box::new(clone_value(v)))
    } else if ts.attrs.compare_default && matches!(&ts.data, ShapeData::DStruct(..)) {
        let d = default_of_type(ts);
        proof {
            lemma_default_matches(*ts);
        }
        DescValue::DDefault(Box::new(compare_values(ts, &d, v)))
    } else {
        match (&ts.data, v) {
            (ShapeData::DStruct(_named, fields), Value::VRecord(vals)) => {
                proof {
                    lemma_model_list(vals@);
                }
                DescValue::DRecord(describe_fields(fields, vals, true))
            },
            (ShapeData::DEnum(variants), Value::VVariant(i, vals)) => {
                proof {
                    lemma_variants_wf_index(variants@);
                    lemma_model_list(vals@);
                }
                DescValue::DVariant(*i, describe_fields(&variants[*i].fields, vals, false))
            },
            (_, _) => DescValue::DUnit,
        }
    }
}

/// Whether every comparison in a list reports no change.
fn all_unchanged_of(cs: &Vec<Changed<ChangeValue>>) -> (r: bool)
    ensures
        r == all_unchanged(wrapped_model_list(cs@)),
{
    proof {
        lemma_wrapped_model_list(cs@);
    }
    let n = cs.len();
    let mut i: usize = 0;
    let mut r = true;
    while i < n
        invariant
            i <= n,
            n == cs@.len(),
            wrapped_model_list(cs@).len() == cs@.len(),
            forall|k: int|
                0 <= k < cs@.len() ==> wrapped_model_list(cs@)[k] == changed_model(&cs@[k]),
            r == (forall|k: int| 0 <= k < i as int ==> wrapped_model_list(cs@)[k] is Unchanged),
        decreases n - i,
    {
        if !cs[i].is_unchanged() {
            r = false;
            assert(!(wrapped_model_list(cs@)[i as int] is Unchanged));
        } else {
            assert(wrapped_model_list(cs@)[i as int] is Unchanged);
        }
        i = i + 1;
    }
    r
}

/// Compare two values of an element type: scalars by equality, sequences by
/// the positional diff, nested types by their own rule.
pub fn cmp_elem(es: &ElemSchema, a: &Value, b: &Value) -> (r: Changed<ChangeValue>)
    requires
        elem_wf(*es),
        elem_matches(*es, a.model()),
        elem_matches(*es, b.model()),
    ensures
        changed_model(&r) == spec_cmp_elem(*es, a.model(), b.model()),
    decreases es, 4int,
{
    match (es, a, b) {
        (ElemSchema::EScalar(_k), Value::VScalar(x), Value::VScalar(y)) => {
            match cmp_scalar(x, y) {
                Changed::Unchanged => Changed::Unchanged,
                Changed::Changed(sc) => Changed::Changed(ChangeValue::CScalar(sc)),
            }
        },
        (ElemSchema::EList(inner), Value::VList(xs), Value::VList(ys)) => {
            let entries = cmp_list_of(inner, xs, ys);
            proof {
                lemma_entry_model_list(entries@);
            }
            if entries.len() == 0 {
                Changed::Unchanged
            } else {
                Changed::Changed(ChangeValue::CList(entries))
            }
        },
        (ElemSchema::ENested(ts), _, _) => compare_values(ts, a, b),
        (_, _, _) => Changed::Unchanged,
    }
}

/// The positional edits between two sequences: in-place changes over the
/// shared indices, then removals or additions past the shorter length.
fn cmp_list_of(inner: &ElemSchema, xs: &Vec<Value>, ys: &Vec<Value>) -> (r: Vec<ListEntry>)
    requires
        elem_wf(*inner),
        list_matches(*inner, model_list(xs@)),
        list_matches(*inner, model_list(ys@)),
    ensures
        entry_model_list(r@) == spec_cmp_list(
            *inner,
            model_list(xs@),
            model_list(ys@),
            longer_len(model_list(xs@), model_list(ys@)),
        ),
    decreases inner, 5int,
{
    let ghost am = model_list(xs@);
    let ghost bm = model_list(ys@);
    proof {
        lemma_model_list(xs@);
        lemma_model_list(ys@);
        lemma_list_matches_index(*inner, am);
        lemma_list_matches_index(*inner, bm);
    }
    let mut entries: Vec<ListEntry> = Vec::new();
    let an = xs.len();
    let bn = ys.len();
    let hi = if an <= bn {
        bn
    } else {
        an
    };
    let m = if an <= bn {
        an
    } else {
        bn
    };
    let mut i: usize = 0;
    while i < hi
        invariant
            i <= hi,
            an == xs@.len(),
            bn == ys@.len(),
            hi == longer_len(am, bm),
            m == (if an <= bn {
                an
            } else {
                bn
            }),
            elem_wf(*inner),
            am == model_list(xs@),
            bm == model_list(ys@),
            am.len() == xs@.len(),
            bm.len() == ys@.len(),
            forall|k: int| 0 <= k < xs@.len() ==> am[k] == xs@[k].model(),
            forall|k: int| 0 <= k < ys@.len() ==> bm[k] == ys@[k].model(),
            forall|k: int| 0 <= k < am.len() ==> elem_matches(*inner, #[trigger] am[k]),
            forall|k: int| 0 <= k < bm.len() ==> elem_matches(*inner, #[trigger] bm[k]),
            entry_model_list(entries@) == spec_cmp_list(*inner, am, bm, i as int),
        decreases hi - i,
    {
        if i < m {
            match cmp_elem(inner, &xs[i], &ys[i]) {
                Changed::Unchanged => {},
                Changed::Changed(c) => {
                    let e = ListEntry::LChanged(i, Box::new(c));
                    proof {
                        lemma_entry_model_list(entries@.push(e));
                        lemma_entry_model_list(entries@);
                        assert(entry_model_list(entries@.push(e)) =~= entry_model_list(
                            entries@,
                        ).push(e.model()));
                    }
                    entries.push(e);
                },
            }
        } else if i < an {
            assert(am[i as int] == xs@[i as int].model());
            assert(elem_matches(*inner, am[i as int]));
            let e = ListEntry::LRemoved(i, describe_elem(inner, &xs[i]));
            proof {
                lemma_entry_model_list(entries@.push(e));
                lemma_entry_model_list(entries@);
                assert(entry_model_list(entries@.push(e)) =~= entry_model_list(entries@).push(
                    e.model(),
                ));
            }
            entries.push(e);
        } else {
            assert(bm[i as int] == ys@[i as int].model());
            assert(elem_matches(*inner, bm[i as int]));
            let e = ListEntry::LAdded(i, describe_elem(inner, &ys[i]));
            proof {
                lemma_entry_model_list(entries@.push(e));
                lemma_entry_model_list(entries@);
                assert(entry_model_list(entries@.push(e)) =~= entry_model_list(entries@).push(
                    e.model(),
                ));
            }
            entries.push(e);
        }
        proof {
            assert(entry_model_list(entries@) =~= spec_cmp_list(*inner, am, bm, i as int)
                + spec_list_entry_at(*inner, am, bm, i as int));
        }
        i = i + 1;
    }
    entries
}

/// One comparison result per kept field of a variant, in order.
fn cmp_wrapped(fields: &Vec<FieldSchema>, avals: &Vec<Value>, bvals: &Vec<Value>) -> (r: Vec<
    Changed<ChangeValue>,
>)
    requires
        fields_wf(fields@),
        avals@.len() == fields@.len(),
        bvals@.len() == fields@.len(),
        fields_match(fields@, model_list(avals@)),
        fields_match(fields@, model_list(bvals@)),
    ensures
        wrapped_model_list(r@) == spec_cmp_wrapped(fields@, model_list(avals@), model_list(bvals@)),
    decreases fields, 5int,
{
    let ghost am = model_list(avals@);
    let ghost bm = model_list(bvals@);
    proof {
        lemma_model_list(avals@);
        lemma_model_list(bvals@);
        lemma_fields_match_index(fields@, am);
        lemma_fields_match_index(fields@, bm);
        lemma_fields_wf_index(fields@);
    }
    let mut r: Vec<Changed<ChangeValue>> = Vec::new();
    let n = fields.len();
    let mut i: usize = 0;
    while i < n
        invariant
            i <= n,
            n == fields@.len(),
            am == model_list(avals@),
            bm == model_list(bvals@),
            am.len() == avals@.len(),
            bm.len() == bvals@.len(),
            avals@.len() == fields@.len(),
            bvals@.len() == fields@.len(),
            forall|k: int| 0 <= k < avals@.len() ==> am[k] == avals@[k].model(),
            forall|k: int| 0 <= k < bvals@.len() ==> bm[k] == bvals@[k].model(),
            forall|k: int| 0 <= k < fields@.len() ==> elem_matches(#[trigger] fields@[k].ty, am[k]),
            forall|k: int| 0 <= k < fields@.len() ==> elem_matches(#[trigger] fields@[k].ty, bm[k]),
            forall|k: int| 0 <= k < fields@.len() ==> elem_wf(#[trigger] fields@[k].ty),
            wrapped_model_list(r@) == spec_cmp_wrapped(
                fields@.take(i as int),
                am.take(i as int),
                bm.take(i as int),
            ),
        decreases n - i,
    {
        proof {
            assert(fields@.take(i as int + 1).drop_last() =~= fields@.take(i as int));
            assert(am.take(i as int + 1).drop_last() =~= am.take(i as int));
            assert(bm.take(i as int + 1).drop_last() =~= bm.take(i as int));
            assert(fields@.take(i as int + 1).last() == fields@[i as int]);
            assert(am.take(i as int + 1).last() == am[i as int]);
            assert(bm.take(i as int + 1).last() == bm[i as int]);
        }
        if !fields[i].ignored {
            assert(decreases_to!(fields => fields@[i as int].ty));
            let c = cmp_elem(&fields[i].ty, &avals[i], &bvals[i]);
            proof {
                lemma_wrapped_model_list(r@.push(c));
                lemma_wrapped_model_list(r@);
                assert(wrapped_model_list(r@.push(c)) =~= wrapped_model_list(r@).push(
                    changed_model(&c),
                ));
            }
            r.push(c);
        }
        i = i + 1;
    }
    proof {
        assert(fields@.take(n as int) =~= fields@);
        assert(am.take(n as int) =~= am);
        assert(bm.take(n as int) =~= bm);
    }
    r
}

/// The minimal per-field change list of a product or flattened variant.
fn cmp_fields(fields: &Vec<FieldSchema>, avals: &Vec<Value>, bvals: &Vec<Value>) -> (r: Vec<
    FieldEntry,
>)
    requires
        fields_wf(fields@),
        field_width_sum(fields@) <= usize::MAX,
        avals@.len() == fields@.len(),
        bvals@.len() == fields@.len(),
        fields_match(fields@, model_list(avals@)),
        fields_match(fields@, model_list(bvals@)),
    ensures
        field_entry_model_list(r@) == spec_cmp_fields(
            fields@,
            model_list(avals@),
            model_list(bvals@),
            model_list(avals@),
            model_list(bvals@),
        ),
    decreases fields, 5int,
{
    let ghost am = model_list(avals@);
    let ghost bm = model_list(bvals@);
    proof {
        lemma_model_list(avals@);
        lemma_model_list(bvals@);
        lemma_fields_match_index(fields@, am);
        lemma_fields_match_index(fields@, bm);
        lemma_fields_wf_index(fields@);
    }
    let mut r: Vec<FieldEntry> = Vec::new();
    let mut base: usize = 0;
    let n = fields.len();
    let mut i: usize = 0;
    while i < n
        invariant
            i <= n,
            n == fields@.len(),
            field_width_sum(fields@) <= usize::MAX,
            am == model_list(avals@),
            bm == model_list(bvals@),
            am.len() == avals@.len(),
            bm.len() == bvals@.len(),
            avals@.len() == fields@.len(),
            bvals@.len() == fields@.len(),
            forall|k: int| 0 <= k < avals@.len() ==> am[k] == avals@[k].model(),
            forall|k: int| 0 <= k < bvals@.len() ==> bm[k] == bvals@[k].model(),
            forall|k: int| 0 <= k < fields@.len() ==> elem_matches(#[trigger] fields@[k].ty, am[k]),
            forall|k: int| 0 <= k < fields@.len() ==> elem_matches(#[trigger] fields@[k].ty, bm[k]),
            forall|k: int| 0 <= k < fields@.len() ==> elem_wf(#[trigger] fields@[k].ty),
            base as int == eff_count(fields@.take(i as int)),
            field_entry_model_list(r@) == spec_cmp_fields(
                fields@.take(i as int),
                am.take(i as int),
                bm.take(i as int),
                am,
                bm,
            ),
        decreases n - i,
    {
        let ghost pre = spec_cmp_fields(
            fields@.take(i as int),
            am.take(i as int),
            bm.take(i as int),
            am,
            bm,
        );
        proof {
            assert(fields@.take(i as int + 1).drop_last() =~= fields@.take(i as int));
            assert(am.take(i as int + 1).drop_last() =~= am.take(i as int));
            assert(bm.take(i as int + 1).drop_last() =~= bm.take(i as int));
            assert(fields@.take(i as int + 1).last() == fields@[i as int]);
            assert(am.take(i as int + 1).last() == am[i as int]);
            assert(bm.take(i as int + 1).last() == bm[i as int]);
            // The running effective index stays within machine bounds.
            lemma_eff_count_bounds(fields@.take(i as int));
            lemma_width_take(fields@, i as int + 1);
        }
        let synths = &fields[i].synthetics;
        let ghost synthsm = synths@;
        assert(base + synthsm.len() + 1 <= usize::MAX) by {
            assert(field_width_sum(fields@.take(i as int + 1)) == field_width_sum(
                fields@.take(i as int),
            ) + synthsm.len() + 1);
        }
        let m = synths.len();
        let mut k: usize = 0;
        while k < m
            invariant
                k <= m,
                m == synthsm.len(),
                synthsm == synths@,
                synths == &fields@[i as int].synthetics,
                i < n,
                n == fields@.len(),
                base + m + 1 <= usize::MAX,
                am == model_list(avals@),
                bm == model_list(bvals@),
                am.len() == avals@.len(),
                bm.len() == bvals@.len(),
                avals@.len() == fields@.len(),
                bvals@.len() == fields@.len(),
                forall|q: int| 0 <= q < avals@.len() ==> am[q] == avals@[q].model(),
                forall|q: int| 0 <= q < bvals@.len() ==> bm[q] == bvals@[q].model(),
                field_entry_model_list(r@) == pre + spec_synth_entries(
                    synthsm.take(k as int),
                    base as int,
                    am,
                    bm,
                ),
            decreases m - k,
        {
            proof {
                assert(synthsm.take(k as int + 1).drop_last() =~= synthsm.take(k as int));
                assert(synthsm.take(k as int + 1).last() == synthsm[k as int]);
            }
            let sa = eval_synth(&synths[k].expr, avals);
            let sb = eval_synth(&synths[k].expr, bvals);
            match cmp_scalar(&sa, &sb) {
                Changed::Unchanged => {},
                Changed::Changed(sc) => {
                    let e = FieldEntry { field: base + k, change: Box::new(
                        ChangeValue::CScalar(sc),
                    ) };
                    proof {
                        lemma_field_entry_model_list(r@.push(e));
                        lemma_field_entry_model_list(r@);
                        assert(field_entry_model_list(r@.push(e)) =~= field_entry_model_list(
                            r@,
                        ).push(e.model()));
                    }
                    r.push(e);
                },
            }
            k = k + 1;
        }
        proof {
            assert(synthsm.take(m as int) =~= synthsm);
        }
        if !fields[i].ignored {
            assert(decreases_to!(fields => fields@[i as int].ty));
            match cmp_elem(&fields[i].ty, &avals[i], &bvals[i]) {
                Changed::Unchanged => {},
                Changed::Changed(c) => {
                    let e = FieldEntry { field: base + m, change: Box::new(c) };
                    proof {
                        lemma_field_entry_model_list(r@.push(e));
                        lemma_field_entry_model_list(r@);
                        assert(field_entry_model_list(r@.push(e)) =~= field_entry_model_list(
                            r@,
                        ).push(e.model()));
                    }
                    r.push(e);
                },
            }
        }
        proof {
            assert(field_entry_model_list(r@) =~= pre + spec_field_block(
                fields@[i as int],
                eff_count(fields@.take(i as int)),
                am[i as int],
                bm[i as int],
                am,
                bm,
            ));
        }
        base = base + m + (if fields[i].ignored {
            0
        } else {
            1
        });
        i = i + 1;
    }
    proof {
        assert(fields@.take(n as int) =~= fields@);
        assert(am.take(n as int) =~= am);
        assert(bm.take(n as int) =~= bm);
    }
    r
}

/// Compare two values of a declared composite type.
///
/// A product with no effective fields can never differ.  A product with
/// exactly one effective field reports that field's change directly, with no
/// wrapping list.  A product with more reports the minimal list of per-field
/// entries, present exactly when at least one differs.  Two values of the
/// same variant report that variant's payload when any kept field differs;
/// two values of different variants report the pair of whole-value
/// descriptions.
pub fn compare_values(ts: &TypeSchema, a: &Value, b: &Value) -> (r: Changed<ChangeValue>)
    requires
        schema_wf(*ts),
        type_matches(*ts, a.model()),
        type_matches(*ts, b.model()),
    ensures
        changed_model(&r) == spec_cmp_type(*ts, a.model(), b.model()),
    decreases ts, 2int,
{
    match (&ts.data, a, b) {
        (ShapeData::DStruct(_named, fields), Value::VRecord(av), Value::VRecord(bv)) => {
            proof {
                lemma_model_list(av@);
                lemma_model_list(bv@);
            }
            let mut entries = cmp_fields(fields, av, bv);
            proof {
                lemma_field_entry_model_list(entries@);
            }
            if entries.len() == 0 {
                Changed::Unchanged
            } else if eff_count_of(fields) == 1 {
                let e = entries.remove(0);
                Changed::Changed(*e.change)
            } else {
                Changed::Changed(ChangeValue::CFields(entries))
            }
        },
        (ShapeData::DEnum(variants), Value::VVariant(i, av), Value::VVariant(j, bv)) => {
            if *i != *j {
                Changed::Changed(
                    ChangeValue::CDifferent(
                        Box::new(describe_value(ts, a)),
                        Box::new(describe_value(ts, b)),
                    ),
                )
            } else {
                proof {
                    lemma_variants_wf_index(variants@);
                    lemma_model_list(av@);
                    lemma_model_list(bv@);
                }
                let fields = &variants[*i].fields;
                let wrapped = cmp_wrapped(fields, av, bv);
                if all_unchanged_of(&wrapped) {
                    Changed::Unchanged
                } else if fields.len() == 1 {
                    proof {
                        lemma_model_list(av@);
                        lemma_model_list(bv@);
                        lemma_fields_match_index(fields@, model_list(av@));
                        lemma_fields_match_index(fields@, model_list(bv@));
                        lemma_fields_wf_index(fields@);
                    }
                    assert(decreases_to!(fields => fields@[0].ty));
                    match cmp_elem(&fields[0].ty, &av[0], &bv[0]) {
                        Changed::Unchanged => Changed::Unchanged,
                        Changed::Changed(c) => Changed::Changed(
                            ChangeValue::CBoth(*i, VariantPayload::POne(Box::new(c))),
                        ),
                    }
                } else if ts.attrs.variant_struct_fields {
                    Changed::Changed(
                        ChangeValue::CBoth(
                            *i,
                            VariantPayload::PFields(cmp_fields(fields, av, bv)),
                        ),
                    )
                } else {
                    Changed::Changed(ChangeValue::CBoth(*i, VariantPayload::PWrapped(wrapped)))
                }
            }
        },
        (_, _, _) => Changed::Unchanged,
    }
}

} // verus!
