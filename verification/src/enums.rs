use crate::definition::{GenData, GenField, GenTypeRef, GenVariant};
use crate::schema::VariantSchema;
use crate::structs::{create_change_type_for_structs, struct_change_data_rel};
use crate::utils::{effective_fields, spec_eff_entries, EffEntry};
use vstd::prelude::*;
use vstd::string::StringExecFns;

verus! {

/// The indices of the variants that get a both-this-variant change
/// representant: those with at least one effective (non-ignored) field.
pub open spec fn included_variants(variants: Seq<VariantSchema>) -> Seq<int>
    decreases variants,
{
    if variants.len() == 0 {
        Seq::empty()
    } else {
        let rest = included_variants(variants.drop_last());
        if spec_eff_entries(
            variants.last().fields@,
            Option::Some((variants.len() - 1) as usize),
            false,
        ).len() > 0 {
            rest.push(variants.len() - 1)
        } else {
            rest
        }
    }
}

/// The indices of the variants that get a both-this-variant representant in
/// flattening mode: those with at least one stored field.
pub open spec fn included_variants_h(variants: Seq<VariantSchema>) -> Seq<int>
    decreases variants,
{
    if variants.len() == 0 {
        Seq::empty()
    } else {
        let rest = included_variants_h(variants.drop_last());
        if variants.last().fields@.len() > 0 {
            rest.push(variants.len() - 1)
        } else {
            rest
        }
    }
}

/// The change-type field generated for one effective field of a variant:
/// wrapped in the two-state type when the variant has several stored fields,
/// so that one arm can say which fields changed and which did not.
pub open spec fn variant_change_field_of(e: EffEntry, wrap: bool) -> GenField {
    GenField {
        name: e.name,
        ty: if wrap {
            GenTypeRef::RChangedOf(Box::new(GenTypeRef::RChange(e.sel)))
        } else {
            GenTypeRef::RChange(e.sel)
        },
    }
}

/// The change-type fields generated for a variant's effective fields.
pub open spec fn variant_gen_fields(entries: Seq<EffEntry>, wrap: bool) -> Seq<GenField>
    decreases entries,
{
    if entries.len() == 0 {
        Seq::empty()
    } else {
        variant_gen_fields(entries.drop_last(), wrap).push(
            variant_change_field_of(entries.last(), wrap),
        )
    }
}

/// Build the change-type fields for one variant's effective fields.
fn variant_change_fields(entries: &Vec<EffEntry>, wrap: bool) -> (r: Vec<GenField>)
    ensures
        r@ == variant_gen_fields(entries@, wrap),
{
    let mut r: Vec<GenField> = Vec::new();
    let n = entries.len();
    let mut i: usize = 0;
    while i < n
        invariant
            i <= n,
            n == entries@.len(),
            r@ == variant_gen_fields(entries@.take(i as int), wrap),
        decreases n - i,
    {
        let name = match &entries[i].name {
            Option::Some(s) => Option::Some(s.clone()),
            Option::None => Option::None,
        };
        let ty = if wrap {
            GenTypeRef::RChangedOf(Box::new(GenTypeRef::RChange(entries[i].sel)))
        } else {
            GenTypeRef::RChange(entries[i].sel)
        };
        r.push(GenField { name, ty });
        proof {
            assert(entries@.take(i as int + 1).drop_last() =~= entries@.take(i as int));
            assert(entries@.take(i as int + 1).last() == entries@[i as int]);
            assert(r@ =~= variant_gen_fields(entries@.take(i as int + 1), wrap));
        }
        i = i + 1;
    }
    proof {
        assert(entries@.take(n as int) =~= entries@);
    }
    r
}

/// The cross-variant representant: a pair of whole-value descriptions.
fn different_variant() -> (r: GenVariant)
    ensures
        r.name@ == "Different"@,
        !r.named,
        r.fields@.len() == 2,
        r.fields@[0] == (GenField { name: Option::None, ty: GenTypeRef::RSelfDesc }),
        r.fields@[1] == (GenField { name: Option::None, ty: GenTypeRef::RSelfDesc }),
{
    let mut fs: Vec<GenField> = Vec::new();
    fs.push(GenField { name: Option::None, ty: GenTypeRef::RSelfDesc });
    fs.push(GenField { name: Option::None, ty: GenTypeRef::RSelfDesc });
    GenVariant { name: String::from_str("Different"), named: false, fields: fs }
}

/// A variant of a generated definition, projected to its mathematical
/// content: name, named-ness and fields.
pub open spec fn gen_variant_proj(v: GenVariant) -> (Seq<char>, bool, Seq<GenField>) {
    (v.name@, v.named, v.fields@)
}

/// The projection of the cross-variant representant.
pub open spec fn different_proj() -> (Seq<char>, bool, Seq<GenField>) {
    (
        "Different"@,
        false,
        seq![
            GenField { name: Option::None, ty: GenTypeRef::RSelfDesc },
            GenField { name: Option::None, ty: GenTypeRef::RSelfDesc },
        ],
    )
}

/// The projections of the both-this-variant representants, in variant order:
/// one per variant with at least one effective field, carrying that field's
/// change directly for a single stored field and one wrapped change per kept
/// field otherwise.
pub open spec fn expected_both_variants(variants: Seq<VariantSchema>) -> Seq<
    (Seq<char>, bool, Seq<GenField>),
>
    decreases variants,
{
    if variants.len() == 0 {
        Seq::empty()
    } else {
        let rest = expected_both_variants(variants.drop_last());
        let vi = variants.len() - 1;
        let ents = spec_eff_entries(variants[vi].fields@, Option::Some(vi as usize), false);
        if ents.len() > 0 {
            rest.push(
                (
                    "Both"@ + variants[vi].name@,
                    variants[vi].named,
                    variant_gen_fields(ents, variants[vi].fields@.len() > 1),
                ),
            )
        } else {
            rest
        }
    }
}

/// Exactly when `r` is the change-type body generated for a sum type.
pub open spec fn enum_change_data_rel(variants: Seq<VariantSchema>, r: GenData) -> bool {
    r matches GenData::GEnum(vs) && {
        let exp = expected_both_variants(variants);
        &&& (variants.len() < 2 ==> vs@.map_values(|v: GenVariant| gen_variant_proj(v)) == exp)
        &&& (variants.len() >= 2 ==> vs@.map_values(|v: GenVariant| gen_variant_proj(v))
            == exp.push(different_proj()))
    }
}

/// Generate the change-type body for a sum type.
///
/// Each variant with effective fields gets a both-this-variant representant:
/// for a single stored field, the field's own change type directly; for
/// several, each kept field's change wrapped individually in the two-state
/// type.  A sum with two or more variants additionally gets the
/// cross-variant representant carrying two whole-value descriptions.
pub fn create_change_type_for_enums(variants: &Vec<VariantSchema>) -> (r: GenData)
    ensures
        enum_change_data_rel(variants@, r),
{
    let mut vs: Vec<GenVariant> = Vec::new();
    let n = variants.len();
    let mut i: usize = 0;
    while i < n
        invariant
            i <= n,
            n == variants@.len(),
            vs@.map_values(|v: GenVariant| gen_variant_proj(v)) == expected_both_variants(
                variants@.take(i as int),
            ),
        decreases n - i,
    {
        proof {
            assert(variants@.take(i as int + 1).drop_last() =~= variants@.take(i as int));
            assert(variants@.take(i as int + 1).last() == variants@[i as int]);
        }
        let entries = effective_fields(&variants[i].fields, Option::Some(i), false);
        if entries.len() > 0 {
            let wrap = variants[i].fields.len() > 1;
            let tag = String::from_str("Both").concat(variants[i].name.as_str());
            let gv = GenVariant {
                name: tag,
                named: variants[i].named,
                fields: variant_change_fields(&entries, wrap),
            };
            proof {
                assert(vs@.push(gv).map_values(|v: GenVariant| gen_variant_proj(v))
                    =~= vs@.map_values(|v: GenVariant| gen_variant_proj(v)).push(
                    gen_variant_proj(gv),
                ));
                assert(gen_variant_proj(gv) == (
                    "Both"@ + variants@[i as int].name@,
                    variants@[i as int].named,
                    variant_gen_fields(
                        spec_eff_entries(
                            variants@[i as int].fields@,
                            Option::Some(i),
                            false,
                        ),
                        variants@[i as int].fields@.len() > 1,
                    ),
                ));
            }
            vs.push(gv);
        }
        i = i + 1;
    }
    proof {
        assert(variants@.take(n as int) =~= variants@);
    }
    if variants.len() >= 2 {
        let dv = different_variant();
        proof {
            assert(vs@.push(dv).map_values(|v: GenVariant| gen_variant_proj(v))
                =~= vs@.map_values(|v: GenVariant| gen_variant_proj(v)).push(
                gen_variant_proj(dv),
            ));
            assert(gen_variant_proj(dv) =~= different_proj());
        }
        vs.push(dv);
    }
    GenData::GEnum(vs)
}

/// Exactly when `r` is the change-type body generated for a sum type in
/// flattening mode: a variant with one stored field keeps that field's own
/// change type, and a variant with several carries a list of its helper
/// change type's entries, so that only the fields that differ appear.
pub open spec fn enum_change_data_h_rel(
    tn: Seq<char>,
    cs: Seq<char>,
    variants: Seq<VariantSchema>,
    r: GenData,
) -> bool {
    r matches GenData::GEnum(vs) && {
            let inc = included_variants_h(variants);
            &&& vs@.len() == inc.len() + (if variants.len() >= 2 {
                1int
            } else {
                0int
            })
            &&& forall|k: int|
                0 <= k < inc.len() ==> {
                    let vi = inc[k];
                    &&& (#[trigger] vs@[k]).name@ == "Both"@ + variants[vi].name@
                    &&& (variants[vi].fields@.len() == 1 ==> vs@[k].named == variants[vi].named
                        && vs@[k].fields@ == variant_gen_fields(
                        spec_eff_entries(
                            variants[vi].fields@,
                            Option::Some(vi as usize),
                            false,
                        ),
                        false,
                    ))
                    &&& (variants[vi].fields@.len() > 1 && spec_eff_entries(
                        variants[vi].fields@,
                        Option::None,
                        true,
                    ).len() > 0 ==> !vs@[k].named && vs@[k].fields@.len() == 1
                        && vs@[k].fields@[0].name is None && (vs@[k].fields@[0].ty matches
                        GenTypeRef::RVecOf(b) && (*b matches GenTypeRef::RNamed(s) && s@
                        == tn + variants[vi].name@ + cs)))
                }
            &&& (variants.len() >= 2 ==> {
                let d = vs@.last();
                &&& d.name@ == "Different"@
                &&& !d.named
                &&& d.fields@.len() == 2
                &&& d.fields@[0] == GenField { name: Option::None, ty: GenTypeRef::RSelfDesc }
                &&& d.fields@[1] == GenField { name: Option::None, ty: GenTypeRef::RSelfDesc }
            })
    }
}

/// Exactly when `hs` are the helper change types generated in flattening
/// mode: each named after the host type, one of the multi-field variants and
/// the change suffix, with the product change rule applied to that variant's
/// fields.
pub open spec fn enum_helpers_rel(
    tn: Seq<char>,
    cs: Seq<char>,
    variants: Seq<VariantSchema>,
    hs: Seq<(String, GenData)>,
) -> bool {
    forall|q: int|
        0 <= q < hs.len() ==> exists|vi: int|
            {
                &&& 0 <= vi < variants.len()
                &&& (#[trigger] hs[q]).0@ == tn + variants[vi].name@ + cs
                &&& struct_change_data_rel(
                    variants[vi].named,
                    variants[vi].fields@,
                    Option::Some(hs[q].1),
                )
            }
}

/// Generate the change-type body for a sum type in flattening mode, together
/// with the helper change types it needs.
///
/// A variant with one stored field keeps that field's own change type.  A
/// variant with several gets a helper change type — the product rule applied
/// to its fields, named after the host type, the variant and the change
/// suffix — and carries a list of that helper's entries, so that only the
/// fields that differ appear.
pub fn create_change_type_for_enums_with_helpers(
    host_name: &String,
    change_suffix: &String,
    variants: &Vec<VariantSchema>,
) -> (r: (GenData, Vec<(String, GenData)>))
    ensures
        enum_change_data_h_rel(host_name@, change_suffix@, variants@, r.0),
        enum_helpers_rel(host_name@, change_suffix@, variants@, r.1@),
{
    let mut vs: Vec<GenVariant> = Vec::new();
    let mut helpers: Vec<(String, GenData)> = Vec::new();
    let n = variants.len();
    let mut i: usize = 0;
    while i < n
        invariant
            i <= n,
            n == variants@.len(),
            ({
                let inc = included_variants_h(variants@.take(i as int));
                &&& vs@.len() == inc.len()
                &&& forall|k: int|
                    0 <= k < inc.len() ==> {
                        let vi = inc[k];
                        &&& 0 <= vi < i as int
                        &&& (#[trigger] vs@[k]).name@ == "Both"@ + variants@[vi].name@
                        &&& (variants@[vi].fields@.len() == 1 ==> vs@[k].named
                            == variants@[vi].named && vs@[k].fields@ == variant_gen_fields(
                            spec_eff_entries(
                                variants@[vi].fields@,
                                Option::Some(vi as usize),
                                false,
                            ),
                            false,
                        ))
                        &&& (variants@[vi].fields@.len() > 1 && spec_eff_entries(
                            variants@[vi].fields@,
                            Option::None,
                            true,
                        ).len() > 0 ==> !vs@[k].named && vs@[k].fields@.len() == 1
                            && vs@[k].fields@[0].name is None && (vs@[k].fields@[0].ty matches
                            GenTypeRef::RVecOf(b) && (*b matches GenTypeRef::RNamed(s) && s@
                            == host_name@ + variants@[vi].name@ + change_suffix@)))
                    }
            }),
            forall|q: int|
                0 <= q < helpers@.len() ==> exists|vi: int|
                    {
                        &&& 0 <= vi < variants@.len()
                        &&& (#[trigger] helpers@[q]).0@ == host_name@ + variants@[vi].name@
                            + change_suffix@
                        &&& struct_change_data_rel(
                            variants@[vi].named,
                            variants@[vi].fields@,
                            Option::Some(helpers@[q].1),
                        )
                    },
        decreases n - i,
    {
        proof {
            assert(variants@.take(i as int + 1).drop_last() =~= variants@.take(i as int));
            assert(variants@.take(i as int + 1).last() == variants@[i as int]);
        }
        if variants[i].fields.len() > 0 {
            let tag = String::from_str("Both").concat(variants[i].name.as_str());
            if variants[i].fields.len() == 1 {
                let entries = effective_fields(&variants[i].fields, Option::Some(i), false);
                vs.push(
                    GenVariant {
                        name: tag,
                        named: variants[i].named,
                        fields: variant_change_fields(&entries, false),
                    },
                );
            } else {
                match create_change_type_for_structs(variants[i].named, &variants[i].fields) {
                    Option::Some(helper_data) => {
                        let helper_name = host_name.clone().concat(
                            variants[i].name.as_str(),
                        ).concat(change_suffix.as_str());
                        let mut fs: Vec<GenField> = Vec::new();
                        fs.push(
                            GenField {
                                name: Option::None,
                                ty: GenTypeRef::RVecOf(
                                    Box::new(GenTypeRef::RNamed(helper_name.clone())),
                                ),
                            },
                        );
                        vs.push(GenVariant { name: tag, named: false, fields: fs });
                        let ghost hidx = i as int;
                        helpers.push((helper_name, helper_data));
                    },
                    Option::None => {
                        // Every field of the variant is ignored: nothing can
                        // change within it, so its representant carries
                        // nothing.
                        vs.push(GenVariant { name: tag, named: false, fields: Vec::new() });
                    },
                }
            }
        }
        i = i + 1;
    }
    proof {
        assert(variants@.take(n as int) =~= variants@);
    }
    if variants.len() >= 2 {
        vs.push(different_variant());
    }
    (GenData::GEnum(vs), helpers)
}

} // verus!
