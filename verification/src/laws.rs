use crate::compare::{
    eff_count, spec_cmp_elem, spec_cmp_fields, spec_cmp_list, spec_cmp_scalar, spec_cmp_type,
    spec_cmp_wrapped, spec_desc_fields, spec_describe_type, spec_field_block, spec_list_entry_at,
    spec_synth_entries, ChangeV, FieldEntryV, ListEntryV,
};
use crate::schema::{ElemSchema, FieldSchema, ShapeData, SynthField, TypeSchema, Val};
use crate::types::Changed;
use vstd::prelude::*;

verus! {

/// Comparing a scalar with itself reports no change.
pub proof fn lemma_scalar_reflexive(x: crate::schema::ScalarV)
    ensures
        spec_cmp_scalar(x, x) is Unchanged,
{
}

/// The synthetic fields of one stored field contribute no entries when the
/// two product values are the same.
proof fn lemma_synth_entries_reflexive(synths: Seq<SynthField>, base: int, whole: Seq<Val>)
    ensures
        spec_synth_entries(synths, base, whole, whole).len() == 0,
    decreases synths,
{
    if synths.len() > 0 {
        lemma_synth_entries_reflexive(synths.drop_last(), base, whole);
    }
}

/// Comparing a value with itself under an element type reports no change.
pub proof fn lemma_cmp_elem_reflexive(es: ElemSchema, v: Val)
    ensures
        spec_cmp_elem(es, v, v) is Unchanged,
    decreases es, 0int,
{
    match es {
        ElemSchema::EScalar(_k) => {
        },
        ElemSchema::EList(inner) => {
            match v {
                Val::MList(xs) => {
                    lemma_cmp_list_reflexive(*inner, xs, xs.len() as int);
                },
                _ => {
                },
            }
        },
        ElemSchema::ENested(ts) => {
            lemma_cmp_type_reflexive(*ts, v);
        },
    }
}

/// The positional diff of a sequence against itself is empty.
proof fn lemma_cmp_list_reflexive(inner: ElemSchema, xs: Seq<Val>, upto: int)
    ensures
        spec_cmp_list(inner, xs, xs, upto).len() == 0,
    decreases inner, 1int, (if upto > 0 {
        upto
    } else {
        0
    }),
{
    if upto > 0 {
        lemma_cmp_list_reflexive(inner, xs, upto - 1);
        if upto - 1 < xs.len() {
            lemma_cmp_elem_reflexive(inner, xs[upto - 1]);
        }
        assert(spec_list_entry_at(inner, xs, xs, upto - 1) =~= Seq::<ListEntryV>::empty());
    }
}

/// The per-field change list of a product value against itself is empty.
proof fn lemma_cmp_fields_reflexive(fields: Seq<FieldSchema>, vals: Seq<Val>, whole: Seq<Val>)
    ensures
        spec_cmp_fields(fields, vals, vals, whole, whole).len() == 0,
    decreases fields, 9int,
{
    if fields.len() > 0 {
        lemma_cmp_fields_reflexive(fields.drop_last(), vals.drop_last(), whole);
        lemma_synth_entries_reflexive(
            fields.last().synthetics@,
            eff_count(fields.drop_last()),
            whole,
        );
        if !fields.last().ignored {
            lemma_cmp_elem_reflexive(fields.last().ty, vals.last());
        }
        assert(spec_field_block(
            fields.last(),
            eff_count(fields.drop_last()),
            vals.last(),
            vals.last(),
            whole,
            whole,
        ).len() == 0);
    }
}

/// Every kept field of a variant compared with itself reports no change.
proof fn lemma_cmp_wrapped_reflexive(fields: Seq<FieldSchema>, vals: Seq<Val>)
    ensures
        crate::compare::all_unchanged(spec_cmp_wrapped(fields, vals, vals)),
    decreases fields, 9int,
{
    if fields.len() > 0 {
        lemma_cmp_wrapped_reflexive(fields.drop_last(), vals.drop_last());
        if !fields.last().ignored {
            lemma_cmp_elem_reflexive(fields.last().ty, vals.last());
        }
        let w = spec_cmp_wrapped(fields, vals, vals);
        let wr = spec_cmp_wrapped(fields.drop_last(), vals.drop_last(), vals.drop_last());
        assert forall|k: int| 0 <= k < w.len() implies w[k] is Unchanged by {
            if k < wr.len() {
                assert(w[k] == wr[k]);
            }
        }
    }
}

/// Reflexivity: comparing any value with itself reports `Unchanged`.
pub proof fn lemma_cmp_type_reflexive(ts: TypeSchema, v: Val)
    ensures
        spec_cmp_type(ts, v, v) is Unchanged,
    decreases ts, 8int,
{
    match &ts.data {
        ShapeData::DStruct(_named, fields) => {
            match v {
                Val::MRecord(vals) => {
                    lemma_cmp_fields_reflexive(fields@, vals, vals);
                },
                _ => {
                },
            }
        },
        ShapeData::DEnum(variants) => {
            match v {
                Val::MVariant(i, vals) => {
                    if 0 <= i < variants@.len() {
                        lemma_cmp_wrapped_reflexive(variants@[i].fields@, vals);
                    }
                },
                _ => {
                },
            }
        },
    }
}

/// Determinism: the comparison of two values is a function of the schema and
/// the two values' models alone, so repeated comparisons of one pair agree —
/// in particular independently of how either value was built up.
pub proof fn lemma_compare_deterministic(
    ts: TypeSchema,
    a: Val,
    b: Val,
    r1: Changed<ChangeV>,
    r2: Changed<ChangeV>,
)
    requires
        r1 == spec_cmp_type(ts, a, b),
        r2 == spec_cmp_type(ts, a, b),
    ensures
        r1 == r2,
{
}

/// The per-field change list of a product without synthetic fields, when at
/// most the field at stored index `j` differs: empty if that field is
/// unchanged, else exactly one entry carrying its change, tagged with its
/// effective index.
proof fn lemma_cmp_fields_single_diff(
    fields: Seq<FieldSchema>,
    avals: Seq<Val>,
    bvals: Seq<Val>,
    awhole: Seq<Val>,
    bwhole: Seq<Val>,
    j: int,
)
    requires
        0 <= j,
        avals.len() == fields.len(),
        bvals.len() == fields.len(),
        forall|k: int| 0 <= k < fields.len() ==> (#[trigger] fields[k].synthetics)@.len() == 0,
        forall|k: int|
            0 <= k < fields.len() && k != j && !fields[k].ignored ==> spec_cmp_elem(
                #[trigger] fields[k].ty,
                avals[k],
                bvals[k],
            ) is Unchanged,
        j < fields.len() ==> !fields[j].ignored,
    ensures
        spec_cmp_fields(fields, avals, bvals, awhole, bwhole) == (if j < fields.len() {
            match spec_cmp_elem(fields[j].ty, avals[j], bvals[j]) {
                Changed::Unchanged => Seq::<FieldEntryV>::empty(),
                Changed::Changed(c) => seq![
                    FieldEntryV { field: eff_count(fields.take(j)), change: c },
                ],
            }
        } else {
            Seq::<FieldEntryV>::empty()
        }),
    decreases fields,
{
    if fields.len() > 0 {
        let i = fields.len() - 1;
        let pre = fields.drop_last();
        assert(pre.len() == fields.len() - 1);
        assert forall|k: int| 0 <= k < pre.len() implies #[trigger] pre[k] == fields[k] by {}
        assert forall|k: int| 0 <= k < pre.len() implies (#[trigger] pre[k].synthetics)@.len()
            == 0 by {
            assert(pre[k] == fields[k]);
        }
        assert forall|k: int|
            0 <= k < pre.len() && k != j && !pre[k].ignored implies spec_cmp_elem(
            #[trigger] pre[k].ty,
            avals.drop_last()[k],
            bvals.drop_last()[k],
        ) is Unchanged by {
            assert(pre[k] == fields[k]);
            assert(avals.drop_last()[k] == avals[k]);
            assert(bvals.drop_last()[k] == bvals[k]);
        }
        lemma_cmp_fields_single_diff(pre, avals.drop_last(), bvals.drop_last(), awhole, bwhole, j);
        // The last field's block.
        let base = eff_count(pre);
        let blk = spec_field_block(fields.last(), base, avals.last(), bvals.last(), awhole, bwhole);
        assert(fields.last() == fields[i]);
        assert(spec_synth_entries(fields[i].synthetics@, base, awhole, bwhole)
            =~= Seq::<FieldEntryV>::empty());
        if j == i {
            assert(avals.last() == avals[j] && bvals.last() == bvals[j]);
            assert(fields.take(j) =~= pre);
            match spec_cmp_elem(fields[j].ty, avals[j], bvals[j]) {
                Changed::Unchanged => {
                    assert(blk =~= Seq::<FieldEntryV>::empty());
                    assert(spec_cmp_fields(fields, avals, bvals, awhole, bwhole)
                        =~= Seq::<FieldEntryV>::empty());
                },
                Changed::Changed(c) => {
                    assert(blk =~= seq![FieldEntryV { field: base, change: c }]);
                    assert(spec_cmp_fields(fields, avals, bvals, awhole, bwhole) =~= seq![
                        FieldEntryV { field: eff_count(fields.take(j)), change: c },
                    ]);
                },
            }
        } else {
            if !fields[i].ignored {
                assert(spec_cmp_elem(fields[i].ty, avals[i], bvals[i]) is Unchanged);
                assert(avals.last() == avals[i] && bvals.last() == bvals[i]);
            }
            assert(blk =~= Seq::<FieldEntryV>::empty());
            if j < fields.len() {
                assert(j < pre.len());
                assert(fields.take(j) =~= pre.take(j));
                assert(avals.drop_last()[j] == avals[j]);
                assert(bvals.drop_last()[j] == bvals[j]);
                assert(spec_cmp_fields(fields, avals, bvals, awhole, bwhole)
                    =~= spec_cmp_fields(pre, avals.drop_last(), bvals.drop_last(), awhole, bwhole));
            } else {
                assert(spec_cmp_fields(fields, avals, bvals, awhole, bwhole)
                    =~= Seq::<FieldEntryV>::empty());
            }
        }
    }
}

/// Minimality for products: in a product with two or more effective fields
/// and no synthetics, when exactly the field at stored index `j` differs, the
/// change is a list with exactly one entry, tagged with that field's
/// effective index and carrying that field's own change.
pub proof fn lemma_minimal_product(ts: TypeSchema, a: Val, b: Val, j: int, c: ChangeV)
    requires
        ts.data matches ShapeData::DStruct(_named, fields) && {
            &&& eff_count(fields@) != 1
            &&& 0 <= j < fields@.len()
            &&& !fields@[j].ignored
            &&& (forall|k: int|
                0 <= k < fields@.len() ==> (#[trigger] fields@[k].synthetics)@.len() == 0)
        },
        a matches Val::MRecord(av) && b matches Val::MRecord(bv) && {
            &&& (ts.data matches ShapeData::DStruct(_named, fields) ==> {
                &&& av.len() == fields@.len()
                &&& bv.len() == fields@.len()
                &&& spec_cmp_elem(fields@[j].ty, av[j], bv[j]) == Changed::Changed(c)
                &&& (forall|k: int|
                    0 <= k < fields@.len() && k != j && !fields@[k].ignored ==> spec_cmp_elem(
                        #[trigger] fields@[k].ty,
                        av[k],
                        bv[k],
                    ) is Unchanged)
            })
        },
    ensures
        ts.data matches ShapeData::DStruct(_named, fields) ==> spec_cmp_type(ts, a, b)
            == Changed::Changed(
            ChangeV::KFields(
                seq![FieldEntryV { field: eff_count(fields@.take(j)), change: c }],
            ),
        ),
{
    match (&ts.data, a, b) {
        (ShapeData::DStruct(_named, fields), Val::MRecord(av), Val::MRecord(bv)) => {
            lemma_cmp_fields_single_diff(fields@, av, bv, av, bv, j);
        },
        _ => {
        },
    }
}

/// Singleton transparency: in a product whose only effective field is the one
/// at stored index `j` (no synthetics, every other field ignored), the change
/// is that field's own change directly, with no wrapping list.
pub proof fn lemma_singleton_transparent(ts: TypeSchema, a: Val, b: Val, j: int)
    requires
        ts.data matches ShapeData::DStruct(_named, fields) && {
            &&& eff_count(fields@) == 1
            &&& 0 <= j < fields@.len()
            &&& !fields@[j].ignored
            &&& (forall|k: int|
                0 <= k < fields@.len() ==> (#[trigger] fields@[k].synthetics)@.len() == 0)
            &&& (forall|k: int| 0 <= k < fields@.len() && k != j ==> fields@[k].ignored)
        },
        a is MRecord,
        b is MRecord,
        ts.data matches ShapeData::DStruct(_named, fields) ==> record_fields(a).len()
            == fields@.len() && record_fields(b).len() == fields@.len(),
    ensures
        ts.data matches ShapeData::DStruct(_named, fields) ==> spec_cmp_type(ts, a, b)
            == spec_cmp_elem(fields@[j].ty, record_fields(a)[j], record_fields(b)[j]),
{
    match (&ts.data, a, b) {
        (ShapeData::DStruct(_named, fields), Val::MRecord(av), Val::MRecord(bv)) => {
            assert forall|k: int|
                0 <= k < fields@.len() && k != j && !fields@[k].ignored implies spec_cmp_elem(
                #[trigger] fields@[k].ty,
                av[k],
                bv[k],
            ) is Unchanged by {}
            lemma_cmp_fields_single_diff(fields@, av, bv, av, bv, j);
        },
        _ => {
        },
    }
}

/// The field values of a product value model.
pub open spec fn record_fields(v: Val) -> Seq<Val> {
    crate::compare::record_fields_of(v)
}

/// Sum-type cross-variant rule: two values of different variants compare to
/// the pair of their whole-value descriptions.
pub proof fn lemma_cross_variant(ts: TypeSchema, a: Val, b: Val)
    requires
        ts.data is DEnum,
        a matches Val::MVariant(i, _av) && b matches Val::MVariant(j, _bv) && i != j,
    ensures
        spec_cmp_type(ts, a, b) == Changed::Changed(
            ChangeV::KDifferent(
                Box::new(spec_describe_type(ts, a)),
                Box::new(spec_describe_type(ts, b)),
            ),
        ),
{
}

/// An ignored field never shows in the change output: in a product without
/// synthetics, two values that agree on every kept field compare `Unchanged`,
/// however the ignored fields were mutated.
pub proof fn lemma_ignored_invisible(ts: TypeSchema, a: Val, b: Val)
    requires
        ts.data is DStruct,
        a is MRecord,
        b is MRecord,
        ts.data matches ShapeData::DStruct(_named, fields) ==> {
            &&& record_fields(a).len() == fields@.len()
            &&& record_fields(b).len() == fields@.len()
            &&& (forall|k: int|
                0 <= k < fields@.len() ==> (#[trigger] fields@[k].synthetics)@.len() == 0)
            &&& (forall|k: int|
                0 <= k < fields@.len() && !fields@[k].ignored ==> spec_cmp_elem(
                    #[trigger] fields@[k].ty,
                    record_fields(a)[k],
                    record_fields(b)[k],
                ) is Unchanged)
        },
    ensures
        spec_cmp_type(ts, a, b) is Unchanged,
{
    match (&ts.data, a, b) {
        (ShapeData::DStruct(_named, fields), Val::MRecord(av), Val::MRecord(bv)) => {
            lemma_cmp_fields_single_diff(fields@, av, bv, av, bv, fields@.len() as int);
        },
        _ => {
        },
    }
}

/// An ignored field never shows in the description either: the description of
/// a product mirrors exactly its effective fields, so its length is the
/// effective count, not the stored count.
pub proof fn lemma_desc_omits_ignored(
    fields: Seq<FieldSchema>,
    vals: Seq<Val>,
    whole: Seq<Val>,
    with_synths: bool,
)
    ensures
        spec_desc_fields(fields, vals, whole, with_synths).len() == (if with_synths {
            eff_count(fields)
        } else {
            kept_count(fields)
        }),
    decreases fields,
{
    if fields.len() > 0 {
        lemma_desc_omits_ignored(fields.drop_last(), vals.drop_last(), whole, with_synths);
        if with_synths {
            lemma_synth_descs_len(fields.last().synthetics@, whole);
        }
    }
}

/// The number of kept (non-ignored) stored fields.
pub open spec fn kept_count(fields: Seq<FieldSchema>) -> int
    decreases fields,
{
    if fields.len() == 0 {
        0
    } else {
        kept_count(fields.drop_last()) + (if fields.last().ignored {
            0int
        } else {
            1int
        })
    }
}

/// One description per synthetic field.
proof fn lemma_synth_descs_len(synths: Seq<SynthField>, whole: Seq<Val>)
    ensures
        crate::compare::spec_synth_descs(synths, whole).len() == synths.len(),
    decreases synths,
{
    if synths.len() > 0 {
        lemma_synth_descs_len(synths.drop_last(), whole);
    }
}

} // verus!
