use crate::types::{Changed, Comparable};
use vstd::prelude::*;

verus! {

/// The empty iterator type, declared so that a placeholder that carries no
/// value can take part in differencing.
#[verifier::external_type_specification]
#[verifier::external_body]
#[verifier::reject_recursive_types(T)]
pub struct ExEmpty<T>(core::iter::Empty<T>);

/// A placeholder carrying no value always compares unchanged and has the
/// unit description.
impl<T> Comparable for core::iter::Empty<T> {
    type Desc = ();

    type Change = ();

    open spec fn obeys() -> bool {
        true
    }

    open spec fn desc_rel(&self, d: ()) -> bool {
        true
    }

    open spec fn unchanged_with(&self, other: &core::iter::Empty<T>) -> bool {
        true
    }

    open spec fn change_rel(&self, other: &core::iter::Empty<T>, c: ()) -> bool {
        false
    }

    proof fn lemma_reflexive(&self) {
    }

    fn describe(&self) -> Self::Desc {
    }

    fn comparison(&self, _other: &Self) -> Changed<Self::Change> {
        Changed::Unchanged
    }
}

} // verus!
