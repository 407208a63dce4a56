use crate::definition::{change_def_rel, generate_change_type, generate_desc_type, Definition};
use crate::schema::{ShapeData, TypeSchema};
use crate::utils::spec_eff_entries;
use vstd::prelude::*;

verus! {

/// The shape class of a declared type, which selects the generation and
/// comparison policy: a product that can never differ, a product whose
/// change is its single effective field's change, a product with a per-field
/// change list, or a sum of variants.
#[derive(PartialEq, Eq, Clone, Copy, Debug)]
pub enum ShapeClass {
    CUnit,
    CSingleton,
    CProduct,
    CSum,
}

/// The shape class of a declared type.
pub open spec fn spec_classify(ts: TypeSchema) -> ShapeClass {
    match ts.data {
        ShapeData::DStruct(_named, fields) => {
            let n = spec_eff_entries(fields@, Option::None, true).len();
            if n == 0 {
                ShapeClass::CUnit
            } else if n == 1 {
                ShapeClass::CSingleton
            } else {
                ShapeClass::CProduct
            }
        },
        ShapeData::DEnum(_variants) => ShapeClass::CSum,
    }
}

/// Classify a declared type into its shape class.
pub fn classify(ts: &TypeSchema) -> (r: ShapeClass)
    ensures
        r == spec_classify(*ts),
{
    match &ts.data {
        ShapeData::DStruct(_named, fields) => {
            let n = crate::utils::field_count(fields, true);
            if n == 0 {
                ShapeClass::CUnit
            } else if n == 1 {
                ShapeClass::CSingleton
            } else {
                ShapeClass::CProduct
            }
        },
        ShapeData::DEnum(_variants) => ShapeClass::CSum,
    }
}

/// Whether a declared type is unitary — no stored fields or no variants at
/// all — so that no change type is generated and comparison always reports
/// `Unchanged`.
pub open spec fn spec_is_unitary(ts: TypeSchema) -> bool {
    match ts.data {
        ShapeData::DStruct(_named, fields) => fields@.len() == 0,
        ShapeData::DEnum(variants) => variants@.len() == 0,
    }
}

/// The two generated sides of a type: its description and its change, each
/// absent where the directives or the shape rule it out.
#[derive(PartialEq, Debug)]
pub struct Outputs {
    pub desc: Option<Definition>,
    pub change: Option<Definition>,
}

/// Process a declared type into its generated outputs: the description side
/// unless description is ruled out, and the change side unless the type is
/// unitary and so can never change.
pub fn process_schema(ts: &TypeSchema) -> (r: Outputs)
    ensures
        (r.desc is Some) == !ts.attrs.no_description,
        (r.change is Some) == !spec_is_unitary(*ts),
        r.change matches Option::Some(c) ==> change_def_rel(*ts, c),
{
    let desc = if ts.attrs.no_description {
        Option::None
    } else {
        Option::Some(generate_desc_type(ts))
    };
    let is_unitary = match &ts.data {
        ShapeData::DStruct(_named, fields) => fields.len() == 0,
        ShapeData::DEnum(variants) => variants.len() == 0,
    };
    let change = if is_unitary {
        Option::None
    } else {
        Option::Some(generate_change_type(ts))
    };
    Outputs { desc, change }
}

} // verus!
