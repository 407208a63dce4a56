use crate::definition::{name_view, GenData, GenField, GenTypeRef, GenVariant};
use crate::schema::FieldSchema;
use crate::utils::{effective_fields, spec_eff_entries, tag_of, variant_name_from_field};
use vstd::prelude::*;

verus! {

/// Exactly when `r` is the change-type body generated for a product with the
/// given fields: nothing for a product that can never change, a one-field
/// mirror for a singleton, and an enum of per-field tags otherwise.
pub open spec fn struct_change_data_rel(
    named: bool,
    fields: Seq<FieldSchema>,
    r: Option<GenData>,
) -> bool {
    let entries = spec_eff_entries(fields, Option::None, true);
    &&& (r is None <==> entries.len() == 0)
    &&& (entries.len() == 1 ==> (r matches Option::Some(GenData::GStruct(nm, fs)) && nm == named
        && fs@.len() == 1 && fs@[0] == (GenField {
        name: entries[0].name,
        ty: GenTypeRef::RChange(entries[0].sel),
    })))
    &&& (entries.len() >= 2 ==> (r matches Option::Some(GenData::GEnum(vs)) && {
        &&& vs@.len() == entries.len()
        &&& forall|k: int|
            0 <= k < entries.len() ==> {
                &&& (#[trigger] vs@[k]).name@ == tag_of(k, name_view(entries[k].name))
                &&& !vs@[k].named
                &&& vs@[k].fields@.len() == 1
                &&& vs@[k].fields@[0] == (GenField {
                    name: Option::None,
                    ty: GenTypeRef::RChange(entries[k].sel),
                })
            }
    }))
}

/// Generate the change-type body for a product.
///
/// A product with no effective fields can never change, so no change type is
/// generated.  A singleton product's change type is a one-field mirror
/// holding the field's own change type directly.  A wider product's change
/// type is an enum with one variant per effective field, tagged with the
/// field's name in Pascal case (or `Field` and its index), so that a change
/// list holds exactly the fields that differ.
pub fn create_change_type_for_structs(named: bool, fields: &Vec<FieldSchema>) -> (r: Option<
    GenData,
>)
    ensures
        struct_change_data_rel(named, fields@, r),
{
    let entries = effective_fields(fields, Option::None, true);
    if entries.len() == 0 {
        Option::None
    } else if entries.len() == 1 {
        let name = match &entries[0].name {
            Option::Some(s) => Option::Some(s.clone()),
            Option::None => Option::None,
        };
        let mut fs: Vec<GenField> = Vec::new();
        fs.push(GenField { name, ty: GenTypeRef::RChange(entries[0].sel) });
        Option::Some(GenData::GStruct(named, fs))
    } else {
        let mut vs: Vec<GenVariant> = Vec::new();
        let n = entries.len();
        let mut k: usize = 0;
        while k < n
            invariant
                k <= n,
                n == entries@.len(),
                entries@ == spec_eff_entries(fields@, Option::None, true),
                vs@.len() == k as int,
                forall|q: int|
                    0 <= q < k as int ==> {
                        &&& (#[trigger] vs@[q]).name@ == tag_of(q, name_view(entries@[q].name))
                        &&& !vs@[q].named
                        &&& vs@[q].fields@.len() == 1
                        &&& vs@[q].fields@[0] == GenField {
                            name: Option::None,
                            ty: GenTypeRef::RChange(entries@[q].sel),
                        }
                    },
            decreases n - k,
        {
            let tag = variant_name_from_field(k, &entries[k].name);
            let mut fs: Vec<GenField> = Vec::new();
            fs.push(GenField { name: Option::None, ty: GenTypeRef::RChange(entries[k].sel) });
            vs.push(GenVariant { name: tag, named: false, fields: fs });
            k = k + 1;
        }
        Option::Some(GenData::GEnum(vs))
    }
}

} // verus!
