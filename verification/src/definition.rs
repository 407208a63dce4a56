use crate::schema::{GenVis, ShapeData, TypeAttrs, TypeSchema};
use crate::utils::{
    spec_eff_entries, spec_synth_kind, tag_of, EffEntry, FieldSel,
};
use vstd::prelude::*;
use vstd::string::StringExecFns;

verus! {

/// A type expression in a generated definition, as a plan over the schema:
/// field types are referred to by what they select, and the emitter realises
/// them in the host language.
#[derive(PartialEq, Debug)]
pub enum GenTypeRef {
    /// The selected field's own description type.
    RDesc(FieldSel),
    /// The selected field's own change type.
    RChange(FieldSel),
    /// The two-state wrapper around a type.
    RChangedOf(Box<GenTypeRef>),
    /// A list of a type.
    RVecOf(Box<GenTypeRef>),
    /// The host type itself.
    RSelf,
    /// The host type's description type.
    RSelfDesc,
    /// The host type's change type.
    RSelfChange,
    /// An explicit scalar type, from a describe override.
    RScalarTy(crate::schema::ScalarKind),
    /// A generated helper type, by name.
    RNamed(String),
    /// The unit type.
    RUnit,
}

/// One field of a generated definition.
#[derive(PartialEq, Debug)]
pub struct GenField {
    pub name: Option<String>,
    pub ty: GenTypeRef,
}

/// One variant of a generated enum definition.
#[derive(PartialEq, Debug)]
pub struct GenVariant {
    pub name: String,
    pub named: bool,
    pub fields: Vec<GenField>,
}

/// The body of a generated definition.
#[derive(PartialEq, Debug)]
pub enum GenData {
    GStruct(bool, Vec<GenField>),
    GEnum(Vec<GenVariant>),
}

/// A complete generated type definition.
#[derive(PartialEq, Debug)]
pub struct GenTypeDef {
    pub vis: GenVis,
    pub name: String,
    pub data: GenData,
}

/// One generated associated type: what the association resolves to, the
/// definition to emit for it, if one is needed, and any helper definitions.
/// The describe and comparison method bodies that accompany these types are
/// the schema interpreters themselves.
#[derive(PartialEq, Debug)]
pub struct Definition {
    pub ty: Option<GenTypeRef>,
    pub definition: Option<GenTypeDef>,
    pub helpers: Vec<GenTypeDef>,
}

/// The view of an optional name.
pub open spec fn name_view(n: Option<String>) -> Option<Seq<char>> {
    match n {
        Option::Some(s) => Option::Some(s@),
        Option::None => Option::None,
    }
}

/// The description-type field generated for one effective field.
pub open spec fn desc_field_of(e: EffEntry) -> GenField {
    GenField { name: e.name, ty: GenTypeRef::RDesc(e.sel) }
}

/// Package a generated body under a name and visibility.
pub fn generate_type_definition(vis: GenVis, host_name: String, data: GenData) -> (r: GenTypeDef)
    ensures
        r.vis == vis,
        r.name == host_name,
        r.data == data,
{
    GenTypeDef { vis, name: host_name, data }
}

/// Build the description-type fields for a list of effective fields.
fn desc_fields_for(entries: &Vec<EffEntry>) -> (r: Vec<GenField>)
    ensures
        r@ == entries@.map_values(|e: EffEntry| desc_field_of(e)),
{
    let mut r: Vec<GenField> = Vec::new();
    let n = entries.len();
    let mut i: usize = 0;
    while i < n
        invariant
            i <= n,
            n == entries@.len(),
            r@ == entries@.take(i as int).map_values(|e: EffEntry| desc_field_of(e)),
        decreases n - i,
    {
        let name = match &entries[i].name {
            Option::Some(s) => Option::Some(s.clone()),
            Option::None => Option::None,
        };
        r.push(GenField { name, ty: GenTypeRef::RDesc(entries[i].sel) });
        proof {
            assert(r@ =~= entries@.take(i as int + 1).map_values(|e: EffEntry| desc_field_of(e)));
        }
        i = i + 1;
    }
    proof {
        assert(entries@.take(n as int) =~= entries@);
    }
    r
}

/// Generate the description side of a type: the associated description type
/// and, where one is needed, the mirror definition holding each effective
/// field's description.
///
/// A self-describing type is its own description; a compare-against-default
/// type describes itself by its change type; a describe override fixes an
/// explicit scalar type.  In each of those cases no definition is emitted.
pub fn generate_desc_type(ts: &TypeSchema) -> (r: Definition)
    ensures
        r.helpers@.len() == 0,
        ts.attrs.self_describing && ts.attrs.describe_override is None ==> r.ty == Option::Some(
            GenTypeRef::RSelf,
        ) && r.definition is None,
        !ts.attrs.self_describing && ts.attrs.compare_default && ts.attrs.describe_override is None
            ==> r.ty == Option::Some(GenTypeRef::RSelfChange) && r.definition is None,
        ts.attrs.describe_override matches Option::Some(e) ==> r.ty == Option::Some(
            GenTypeRef::RScalarTy(spec_synth_kind(e)),
        ) && r.definition is None,
        !ts.attrs.self_describing && !ts.attrs.compare_default && ts.attrs.describe_override
            is None ==> {
            &&& r.ty matches Option::Some(GenTypeRef::RNamed(nm)) && nm@ == ts.name@
                + ts.attrs.desc_suffix@
            &&& r.definition matches Option::Some(def) && {
                &&& def.vis == choose_visibility(&ts.attrs, ts.vis)
                &&& def.name@ == ts.name@ + ts.attrs.desc_suffix@
                &&& match ts.data {
                    ShapeData::DStruct(named, fields) => def.data matches GenData::GStruct(nm2, fs)
                        && nm2 == named && fs@ == spec_eff_entries(
                        fields@,
                        Option::None,
                        true,
                    ).map_values(|e: EffEntry| desc_field_of(e)),
                    ShapeData::DEnum(variants) => def.data matches GenData::GEnum(vs) && {
                        &&& vs@.len() == variants@.len()
                        &&& forall|k: int|
                            0 <= k < variants@.len() ==> {
                                &&& (#[trigger] vs@[k]).name == variants@[k].name
                                &&& vs@[k].named == variants@[k].named
                                &&& vs@[k].fields@ == spec_eff_entries(
                                    variants@[k].fields@,
                                    Option::Some(k as usize),
                                    false,
                                ).map_values(|e: EffEntry| desc_field_of(e))
                            }
                    },
                }
            }
        },
{
    if let Option::Some(e) = &ts.attrs.describe_override {
        return Definition {
            ty: Option::Some(GenTypeRef::RScalarTy(crate::utils::synth_kind(e))),
            definition: Option::None,
            helpers: Vec::new(),
        };
    }
    if ts.attrs.self_describing {
        return Definition {
            ty: Option::Some(GenTypeRef::RSelf),
            definition: Option::None,
            helpers: Vec::new(),
        };
    }
    if ts.attrs.compare_default {
        return Definition {
            ty: Option::Some(GenTypeRef::RSelfChange),
            definition: Option::None,
            helpers: Vec::new(),
        };
    }
    let desc_name = ts.name.clone().concat(ts.attrs.desc_suffix.as_str());
    let data = match &ts.data {
        ShapeData::DStruct(named, fields) => {
            let entries = crate::utils::effective_fields(fields, Option::None, true);
            GenData::GStruct(*named, desc_fields_for(&entries))
        },
        ShapeData::DEnum(variants) => {
            let mut vs: Vec<GenVariant> = Vec::new();
            let n = variants.len();
            let mut i: usize = 0;
            while i < n
                invariant
                    i <= n,
                    n == variants@.len(),
                    vs@.len() == i as int,
                    forall|k: int|
                        0 <= k < i as int ==> {
                            &&& (#[trigger] vs@[k]).name == variants@[k].name
                            &&& vs@[k].named == variants@[k].named
                            &&& vs@[k].fields@ == spec_eff_entries(
                                variants@[k].fields@,
                                Option::Some(k as usize),
                                false,
                            ).map_values(|e: EffEntry| desc_field_of(e))
                        },
                decreases n - i,
            {
                let entries = crate::utils::effective_fields(
                    &variants[i].fields,
                    Option::Some(i),
                    false,
                );
                vs.push(
                    GenVariant {
                        name: variants[i].name.clone(),
                        named: variants[i].named,
                        fields: desc_fields_for(&entries),
                    },
                );
                i = i + 1;
            }
            GenData::GEnum(vs)
        },
    };
    let vis = choose_visibility_exec(&ts.attrs, ts.vis);
    Definition {
        ty: Option::Some(GenTypeRef::RNamed(desc_name.clone())),
        definition: Option::Some(generate_type_definition(vis, desc_name, data)),
        helpers: Vec::new(),
    }
}

/// Exactly when `r` is the generated change side of a type: the associated
/// change type — nothing for a product that can never change, the bare name
/// for a singleton product or a sum, a list of it for a wider product — and
/// the definition and helpers to emit.
pub open spec fn change_def_rel(ts: TypeSchema, r: Definition) -> bool {
    let cn = ts.name@ + ts.attrs.change_suffix@;
    match ts.data {
        ShapeData::DStruct(named, fields) => {
            let entries = spec_eff_entries(fields@, Option::None, true);
            &&& r.helpers@.len() == 0
            &&& (entries.len() == 0 ==> r.ty is None && r.definition is None)
            &&& (entries.len() == 1 ==> (r.ty matches Option::Some(GenTypeRef::RNamed(s)) && s@
                == cn))
            &&& (entries.len() >= 2 ==> (r.ty matches Option::Some(GenTypeRef::RVecOf(b)) && (
            *b matches GenTypeRef::RNamed(s) && s@ == cn)))
            &&& (entries.len() >= 1 ==> (r.definition matches Option::Some(def) && {
                &&& def.name@ == cn
                &&& def.vis == choose_visibility(&ts.attrs, ts.vis)
                &&& crate::structs::struct_change_data_rel(
                    named,
                    fields@,
                    Option::Some(def.data),
                )
            }))
        },
        ShapeData::DEnum(variants) => {
            &&& r.ty matches Option::Some(GenTypeRef::RNamed(s)) && s@ == cn
            &&& r.definition matches Option::Some(def) && {
                &&& def.name@ == cn
                &&& def.vis == choose_visibility(&ts.attrs, ts.vis)
                &&& (!ts.attrs.variant_struct_fields ==> crate::enums::enum_change_data_rel(
                    variants@,
                    def.data,
                ))
                &&& (ts.attrs.variant_struct_fields ==> crate::enums::enum_change_data_h_rel(
                    ts.name@,
                    ts.attrs.change_suffix@,
                    variants@,
                    def.data,
                ))
            }
            &&& (!ts.attrs.variant_struct_fields ==> r.helpers@.len() == 0)
            &&& (ts.attrs.variant_struct_fields ==> forall|q: int|
                0 <= q < r.helpers@.len() ==> ((#[trigger] r.helpers@[q]).vis
                    == choose_visibility(&ts.attrs, ts.vis) && exists|vi: int|
                    {
                        &&& 0 <= vi < variants@.len()
                        &&& r.helpers@[q].name@ == ts.name@ + variants@[vi].name@
                            + ts.attrs.change_suffix@
                        &&& crate::structs::struct_change_data_rel(
                            variants@[vi].named,
                            variants@[vi].fields@,
                            Option::Some(r.helpers@[q].data),
                        )
                    }))
        },
    }
}

/// Generate the change side of a type: the associated change type, the
/// definition to emit for it where one is needed, and, in flattening mode,
/// the per-variant helper change types.
pub fn generate_change_type(ts: &TypeSchema) -> (r: Definition)
    ensures
        change_def_rel(*ts, r),
{
    let change_name = ts.name.clone().concat(ts.attrs.change_suffix.as_str());
    let vis = choose_visibility_exec(&ts.attrs, ts.vis);
    match &ts.data {
        ShapeData::DStruct(named, fields) => {
            match crate::structs::create_change_type_for_structs(*named, fields) {
                Option::None => Definition {
                    ty: Option::None,
                    definition: Option::None,
                    helpers: Vec::new(),
                },
                Option::Some(data) => {
                    let entries = crate::utils::effective_fields(fields, Option::None, true);
                    let ty = if entries.len() == 1 {
                        GenTypeRef::RNamed(change_name.clone())
                    } else {
                        GenTypeRef::RVecOf(Box::new(GenTypeRef::RNamed(change_name.clone())))
                    };
                    Definition {
                        ty: Option::Some(ty),
                        definition: Option::Some(
                            generate_type_definition(vis, change_name, data),
                        ),
                        helpers: Vec::new(),
                    }
                },
            }
        },
        ShapeData::DEnum(variants) => {
            if ts.attrs.variant_struct_fields {
                let (data, raw_helpers) = crate::enums::create_change_type_for_enums_with_helpers(
                    &ts.name,
                    &ts.attrs.change_suffix,
                    variants,
                );
                let ghost tn = ts.name@;
                let ghost cs = ts.attrs.change_suffix@;
                let mut helpers: Vec<GenTypeDef> = Vec::new();
                let hn = raw_helpers.len();
                let mut q: usize = 0;
                let mut rest = raw_helpers;
                // Consume the raw helper list front to back, packaging each
                // under the chosen visibility.
                while q < hn
                    invariant
                        q <= hn,
                        rest@.len() == hn - q,
                        crate::enums::enum_helpers_rel(tn, cs, variants@, rest@),
                        helpers@.len() == q as int,
                        forall|p: int|
                            0 <= p < q as int ==> ((#[trigger] helpers@[p]).vis == vis
                                && exists|vi: int|
                                {
                                    &&& 0 <= vi < variants@.len()
                                    &&& helpers@[p].name@ == tn + variants@[vi].name@ + cs
                                    &&& crate::structs::struct_change_data_rel(
                                        variants@[vi].named,
                                        variants@[vi].fields@,
                                        Option::Some(helpers@[p].data),
                                    )
                                }),
                    decreases hn - q,
                {
                    let pair = rest.remove(0);
                    proof {
                        // Name the variant this helper was generated for, so
                        // its witness carries over to the packaged form.
                        let _vi = choose|vi: int|
                            {
                                &&& 0 <= vi < variants@.len()
                                &&& pair.0@ == tn + variants@[vi].name@ + cs
                                &&& crate::structs::struct_change_data_rel(
                                    variants@[vi].named,
                                    variants@[vi].fields@,
                                    Option::Some(pair.1),
                                )
                            };
                    }
                    helpers.push(GenTypeDef { vis, name: pair.0, data: pair.1 });
                    q = q + 1;
                }
                Definition {
                    ty: Option::Some(GenTypeRef::RNamed(change_name.clone())),
                    definition: Option::Some(generate_type_definition(vis, change_name, data)),
                    helpers,
                }
            } else {
                let data = crate::enums::create_change_type_for_enums(variants);
                Definition {
                    ty: Option::Some(GenTypeRef::RNamed(change_name.clone())),
                    definition: Option::Some(generate_type_definition(vis, change_name, data)),
                    helpers: Vec::new(),
                }
            }
        },
    }
}

/// The visibility generated mirror types get: forced private or public by the
/// directives, else the host type's own.
pub open spec fn choose_visibility(attrs: &TypeAttrs, host: GenVis) -> GenVis {
    if attrs.comparable_private {
        GenVis::GPrivate
    } else if attrs.comparable_public {
        GenVis::GPublic
    } else {
        host
    }
}

/// The visibility generated mirror types get.
pub fn choose_visibility_exec(attrs: &TypeAttrs, host: GenVis) -> (r: GenVis)
    ensures
        r == choose_visibility(attrs, host),
{
    if attrs.comparable_private {
        GenVis::GPrivate
    } else if attrs.comparable_public {
        GenVis::GPublic
    } else {
        host
    }
}

} // verus!
