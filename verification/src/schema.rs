use vstd::prelude::*;
use vstd::string::StringExecFns;

verus! {

/// The scalar kinds a schema field can declare.
#[derive(PartialEq, Eq, Clone, Copy, Debug)]
pub enum ScalarKind {
    KUnit,
    KBool,
    KU8,
    KI8,
    KU16,
    KI16,
    KU32,
    KI32,
    KU64,
    KI64,
    KUsize,
    KIsize,
    KChar,
    KStr,
}

/// A scalar value held by a field of a schema-described value.
#[derive(PartialEq, Clone, Debug)]
pub enum Scalar {
    VUnit,
    VBool(bool),
    VU8(u8),
    VI8(i8),
    VU16(u16),
    VI16(i16),
    VU32(u32),
    VI32(i32),
    VU64(u64),
    VI64(i64),
    VUsize(usize),
    VIsize(isize),
    VChar(char),
    VStr(String),
}

/// The mathematical model of a [`Scalar`]: text becomes a character sequence.
pub enum ScalarV {
    MUnit,
    MBool(bool),
    MU8(u8),
    MI8(i8),
    MU16(u16),
    MI16(i16),
    MU32(u32),
    MI32(i32),
    MU64(u64),
    MI64(i64),
    MUsize(usize),
    MIsize(isize),
    MChar(char),
    MStr(Seq<char>),
}

impl Scalar {
    /// The mathematical model of this scalar.
    pub open spec fn model(&self) -> ScalarV {
        match self {
            Scalar::VUnit => ScalarV::MUnit,
            Scalar::VBool(x) => ScalarV::MBool(*x),
            Scalar::VU8(x) => ScalarV::MU8(*x),
            Scalar::VI8(x) => ScalarV::MI8(*x),
            Scalar::VU16(x) => ScalarV::MU16(*x),
            Scalar::VI16(x) => ScalarV::MI16(*x),
            Scalar::VU32(x) => ScalarV::MU32(*x),
            Scalar::VI32(x) => ScalarV::MI32(*x),
            Scalar::VU64(x) => ScalarV::MU64(*x),
            Scalar::VI64(x) => ScalarV::MI64(*x),
            Scalar::VUsize(x) => ScalarV::MUsize(*x),
            Scalar::VIsize(x) => ScalarV::MIsize(*x),
            Scalar::VChar(x) => ScalarV::MChar(*x),
            Scalar::VStr(x) => ScalarV::MStr(x@),
        }
    }
}

/// Whether a scalar model is a value of the given kind.
pub open spec fn scalar_has_kind(v: ScalarV, k: ScalarKind) -> bool {
    match v {
        ScalarV::MUnit => k == ScalarKind::KUnit,
        ScalarV::MBool(_) => k == ScalarKind::KBool,
        ScalarV::MU8(_) => k == ScalarKind::KU8,
        ScalarV::MI8(_) => k == ScalarKind::KI8,
        ScalarV::MU16(_) => k == ScalarKind::KU16,
        ScalarV::MI16(_) => k == ScalarKind::KI16,
        ScalarV::MU32(_) => k == ScalarKind::KU32,
        ScalarV::MI32(_) => k == ScalarKind::KI32,
        ScalarV::MU64(_) => k == ScalarKind::KU64,
        ScalarV::MI64(_) => k == ScalarKind::KI64,
        ScalarV::MUsize(_) => k == ScalarKind::KUsize,
        ScalarV::MIsize(_) => k == ScalarKind::KIsize,
        ScalarV::MChar(_) => k == ScalarKind::KChar,
        ScalarV::MStr(_) => k == ScalarKind::KStr,
    }
}

/// A runtime value of a schema-described shape: a scalar, an ordered sequence,
/// a product instance holding its declared fields in order, or a sum instance
/// holding the index of its variant and that variant's fields.
#[derive(PartialEq, Debug)]
pub enum Value {
    VScalar(Scalar),
    VList(Vec<Value>),
    VRecord(Vec<Value>),
    VVariant(usize, Vec<Value>),
}

/// The mathematical model of a [`Value`]: the same tree over `Seq`.
pub enum Val {
    MScalar(ScalarV),
    MList(Seq<Val>),
    MRecord(Seq<Val>),
    MVariant(int, Seq<Val>),
}

/// The models of a sequence of values, in order.
pub open spec fn model_list(vs: Seq<Value>) -> Seq<Val>
    decreases vs,
{
    if vs.len() == 0 {
        Seq::empty()
    } else {
        model_list(vs.drop_last()).push(vs.last().model())
    }
}

impl Value {
    /// The mathematical model of this value.
    pub open spec fn model(&self) -> Val
        decreases self,
    {
        match self {
            Value::VScalar(s) => Val::MScalar(s.model()),
            Value::VList(vs) => Val::MList(model_list(vs@)),
            Value::VRecord(vs) => Val::MRecord(model_list(vs@)),
            Value::VVariant(idx, vs) => Val::MVariant(*idx as int, model_list(vs@)),
        }
    }
}

/// `model_list` maps each element to its model, preserving length and order.
pub proof fn lemma_model_list(vs: Seq<Value>)
    ensures
        model_list(vs).len() == vs.len(),
        forall|i: int| 0 <= i < vs.len() ==> model_list(vs)[i] == vs[i].model(),
    decreases vs,
{
    if vs.len() > 0 {
        lemma_model_list(vs.drop_last());
    }
}

/// A derived, named projection of a whole product value, treated as an extra
/// field for differencing purposes.
#[derive(PartialEq, Clone, Debug)]
pub enum SynthExpr {
    /// The wrapping 8-bit sum of the list-of-bytes field at the given index.
    SumU8(usize),
    /// A fixed text, standing for description bodies computed apart from the
    /// stored fields.
    LitStr(String),
}

/// One synthetic field: its name and the expression computing it.
#[derive(PartialEq, Clone, Debug)]
pub struct SynthField {
    pub name: String,
    pub expr: SynthExpr,
}

/// One declared field of a product or of a sum variant.
#[derive(PartialEq, Debug)]
pub struct FieldSchema {
    /// The field's name, or `None` for a positional field.
    pub name: Option<String>,
    /// The declared element type the field holds.
    pub ty: ElemSchema,
    /// An ignored field is excluded from descriptions and changes entirely.
    pub ignored: bool,
    /// Synthetic fields injected in front of this field.
    pub synthetics: Vec<SynthField>,
}

/// One variant of a sum type.
#[derive(PartialEq, Debug)]
pub struct VariantSchema {
    pub name: String,
    /// Whether the variant's fields are named (braced) or positional.
    pub named: bool,
    pub fields: Vec<FieldSchema>,
}

/// The declared element type of a field.
#[derive(PartialEq, Debug)]
pub enum ElemSchema {
    EScalar(ScalarKind),
    EList(Box<ElemSchema>),
    ENested(Box<TypeSchema>),
}

/// The field or variant structure of a declared composite type.
#[derive(PartialEq, Debug)]
pub enum ShapeData {
    /// A product: whether its fields are named, and the fields themselves.
    DStruct(bool, Vec<FieldSchema>),
    /// A sum of variants.
    DEnum(Vec<VariantSchema>),
}

/// The visibility given to the generated mirror types.
#[derive(PartialEq, Eq, Clone, Copy, Debug)]
pub enum GenVis {
    GPublic,
    GCrate,
    GPrivate,
}

/// The per-type directives that drive generation.
#[derive(PartialEq, Clone, Debug)]
pub struct TypeAttrs {
    /// Description is asserted never to be needed: it becomes the unit type.
    pub no_description: bool,
    /// Description is a copy of the value itself.
    pub self_describing: bool,
    /// Multi-field sum variants flatten to a list of tagged per-field entries.
    pub variant_struct_fields: bool,
    /// Description is the change-set from the type's default value.
    pub compare_default: bool,
    /// Force the generated mirror types public.
    pub comparable_public: bool,
    /// Force the generated mirror types private.
    pub comparable_private: bool,
    /// Suffix of the generated description type's name.
    pub desc_suffix: String,
    /// Suffix of the generated change type's name.
    pub change_suffix: String,
    /// An explicit expression computing the description from the value.
    pub describe_override: Option<SynthExpr>,
}

impl TypeAttrs {
    /// No directives: the defaults a bare type declaration gets, with the
    /// standard suffixes for the generated mirror types' names.
    pub fn new() -> (r: TypeAttrs)
        ensures
            !r.no_description,
            !r.self_describing,
            !r.variant_struct_fields,
            !r.compare_default,
            !r.comparable_public,
            !r.comparable_private,
            r.desc_suffix@ == "Desc"@,
            r.change_suffix@ == "Change"@,
            r.describe_override is None,
    {
        TypeAttrs {
            no_description: false,
            self_describing: false,
            variant_struct_fields: false,
            compare_default: false,
            comparable_public: false,
            comparable_private: false,
            desc_suffix: String::from_str("Desc"),
            change_suffix: String::from_str("Change"),
            describe_override: Option::None,
        }
    }
}

/// The declared shape of a composite type, together with its directives: the
/// input from which the mirror types and the two operations are derived.
#[derive(PartialEq, Debug)]
pub struct TypeSchema {
    pub name: String,
    /// The host type's own visibility.
    pub vis: GenVis,
    pub attrs: TypeAttrs,
    pub data: ShapeData,
}

/// Whether a value model conforms to a declared element type.
pub open spec fn elem_matches(es: ElemSchema, v: Val) -> bool
    decreases es, 0nat,
{
    match es {
        ElemSchema::EScalar(k) => v matches Val::MScalar(s) && scalar_has_kind(s, k),
        ElemSchema::EList(inner) => v matches Val::MList(elems) && list_matches(*inner, elems),
        ElemSchema::ENested(ts) => type_matches(*ts, v),
    }
}

/// Whether every element of a list conforms to the element type.
pub open spec fn list_matches(inner: ElemSchema, elems: Seq<Val>) -> bool
    decreases inner, elems.len(),
{
    if elems.len() == 0 {
        true
    } else {
        list_matches(inner, elems.drop_last()) && elem_matches(inner, elems.last())
    }
}

/// Whether a sequence of field values conforms, in order, to a sequence of
/// declared fields of equal length.
pub open spec fn fields_match(fields: Seq<FieldSchema>, vals: Seq<Val>) -> bool
    decreases fields, 0nat,
{
    if fields.len() == 0 {
        true
    } else {
        fields_match(fields.drop_last(), vals.drop_last()) && elem_matches(
            fields.last().ty,
            vals.last(),
        )
    }
}

/// Whether a value model conforms to a declared composite type: a product
/// value holds one value per declared field, and a sum value selects a
/// declared variant and holds one value per that variant's fields.
pub open spec fn type_matches(ts: TypeSchema, v: Val) -> bool
    decreases ts, 1nat,
{
    match ts.data {
        ShapeData::DStruct(_named, fields) => v matches Val::MRecord(vals) && vals.len()
            == fields@.len() && fields_match(fields@, vals),
        ShapeData::DEnum(variants) => v matches Val::MVariant(idx, vals) && 0 <= idx
            < variants@.len() && vals.len() == variants@[idx].fields@.len() && fields_match(
            variants@[idx].fields@,
            vals,
        ),
    }
}

/// An upper bound on the effective fields of a product: every stored field
/// counted once, plus its synthetics, whether or not it is ignored.
pub open spec fn field_width_sum(fields: Seq<FieldSchema>) -> int
    decreases fields,
{
    if fields.len() == 0 {
        0
    } else {
        field_width_sum(fields.drop_last()) + fields.last().synthetics@.len() + 1
    }
}

/// Whether an element type's nested schemas are all within machine bounds.
pub open spec fn elem_wf(es: ElemSchema) -> bool
    decreases es, 0int,
{
    match es {
        ElemSchema::EScalar(_k) => true,
        ElemSchema::EList(inner) => elem_wf(*inner),
        ElemSchema::ENested(ts) => schema_wf(*ts),
    }
}

/// Whether every field's element type is well formed.
pub open spec fn fields_wf(fields: Seq<FieldSchema>) -> bool
    decreases fields,
{
    if fields.len() == 0 {
        true
    } else {
        fields_wf(fields.drop_last()) && elem_wf(fields.last().ty)
    }
}

/// Whether every variant's fields are well formed and within machine bounds.
pub open spec fn variants_wf(variants: Seq<VariantSchema>) -> bool
    decreases variants,
{
    if variants.len() == 0 {
        true
    } else {
        variants_wf(variants.drop_last()) && fields_wf(variants.last().fields@)
            && field_width_sum(variants.last().fields@) <= usize::MAX
    }
}

/// Whether an element type has a default value: scalars and sequences always
/// do, a nested type when it does.
pub open spec fn elem_has_default(es: ElemSchema) -> bool
    decreases es, 0int,
{
    match es {
        ElemSchema::EScalar(_k) => true,
        ElemSchema::EList(_inner) => true,
        ElemSchema::ENested(ts) => type_has_default(*ts),
    }
}

/// Whether every field of a list has a default value.
pub open spec fn fields_have_default(fields: Seq<FieldSchema>) -> bool
    decreases fields,
{
    if fields.len() == 0 {
        true
    } else {
        fields_have_default(fields.drop_last()) && elem_has_default(fields.last().ty)
    }
}

/// Whether a declared type has a default value: a product of defaultable
/// fields, or a sum with at least one variant whose first variant's fields
/// are defaultable.  A sum with no variants has no values at all.
pub open spec fn type_has_default(ts: TypeSchema) -> bool
    decreases ts, 1int,
{
    match ts.data {
        ShapeData::DStruct(_named, fields) => fields_have_default(fields@),
        ShapeData::DEnum(variants) => variants@.len() > 0 && fields_have_default(
            variants@[0].fields@,
        ),
    }
}

/// A machine-limits and supported-shape bound on a schema: at every product
/// or variant in the tree, the effective fields (stored plus synthetic) are
/// countable in `usize`; and a type that describes itself against its default
/// value must have one.  Any schema that fits in memory satisfies the first
/// bound; generation rejects a schema that breaks the second.
pub open spec fn schema_wf(ts: TypeSchema) -> bool
    decreases ts, 1int,
{
    &&& (ts.attrs.compare_default && ts.data is DStruct ==> type_has_default(ts))
    &&& match ts.data {
        ShapeData::DStruct(_named, fields) => fields_wf(fields@) && field_width_sum(fields@)
            <= usize::MAX,
        ShapeData::DEnum(variants) => variants_wf(variants@),
    }
}

/// Unfolds `fields_wf` to a per-index statement.
pub proof fn lemma_fields_wf_index(fields: Seq<FieldSchema>)
    requires
        fields_wf(fields),
    ensures
        forall|i: int| 0 <= i < fields.len() ==> elem_wf(#[trigger] fields[i].ty),
    decreases fields,
{
    if fields.len() > 0 {
        lemma_fields_wf_index(fields.drop_last());
        assert forall|i: int| 0 <= i < fields.len() implies elem_wf(#[trigger] fields[i].ty) by {
            if i < fields.len() - 1 {
                assert(fields.drop_last()[i] == fields[i]);
            }
        }
    }
}

/// Unfolds `variants_wf` to a per-index statement.
pub proof fn lemma_variants_wf_index(variants: Seq<VariantSchema>)
    requires
        variants_wf(variants),
    ensures
        forall|i: int|
            0 <= i < variants.len() ==> fields_wf(#[trigger] variants[i].fields@)
                && field_width_sum(variants[i].fields@) <= usize::MAX,
    decreases variants,
{
    if variants.len() > 0 {
        lemma_variants_wf_index(variants.drop_last());
        assert forall|i: int| 0 <= i < variants.len() implies fields_wf(
            #[trigger] variants[i].fields@,
        ) && field_width_sum(variants[i].fields@) <= usize::MAX by {
            if i < variants.len() - 1 {
                assert(variants.drop_last()[i] == variants[i]);
            }
        }
    }
}

/// Unfolds `list_matches` to a per-index statement.
pub proof fn lemma_list_matches_index(inner: ElemSchema, elems: Seq<Val>)
    requires
        list_matches(inner, elems),
    ensures
        forall|i: int| 0 <= i < elems.len() ==> elem_matches(inner, #[trigger] elems[i]),
    decreases elems,
{
    if elems.len() > 0 {
        lemma_list_matches_index(inner, elems.drop_last());
        assert forall|i: int| 0 <= i < elems.len() implies elem_matches(
            inner,
            #[trigger] elems[i],
        ) by {
            if i < elems.len() - 1 {
                assert(elems.drop_last()[i] == elems[i]);
            }
        }
    }
}

/// Unfolds `fields_match` to a per-index statement.
pub proof fn lemma_fields_match_index(fields: Seq<FieldSchema>, vals: Seq<Val>)
    requires
        fields.len() == vals.len(),
        fields_match(fields, vals),
    ensures
        forall|i: int| 0 <= i < fields.len() ==> elem_matches(#[trigger] fields[i].ty, vals[i]),
    decreases fields,
{
    if fields.len() > 0 {
        lemma_fields_match_index(fields.drop_last(), vals.drop_last());
        assert forall|i: int| 0 <= i < fields.len() implies elem_matches(
            #[trigger] fields[i].ty,
            vals[i],
        ) by {
            if i < fields.len() - 1 {
                assert(fields.drop_last()[i] == fields[i]);
                assert(vals.drop_last()[i] == vals[i]);
            }
        }
    }
}

} // verus!
