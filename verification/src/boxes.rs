use crate::types::{Changed, Comparable};
use vstd::prelude::*;

verus! {

/// An owning wrapper is transparent to differencing: description and change
/// both delegate to the inner value, with no wrapping layer of their own.
impl<T: Comparable> Comparable for Box<T> {
    type Desc = T::Desc;

    type Change = T::Change;

    open spec fn obeys() -> bool {
        T::obeys()
    }

    open spec fn desc_rel(&self, d: T::Desc) -> bool {
        (**self).desc_rel(d)
    }

    open spec fn unchanged_with(&self, other: &Box<T>) -> bool {
        (**self).unchanged_with(&**other)
    }

    open spec fn change_rel(&self, other: &Box<T>, c: T::Change) -> bool {
        (**self).change_rel(&**other, c)
    }

    proof fn lemma_reflexive(&self) {
        (**self).lemma_reflexive();
    }

    fn describe(&self) -> Self::Desc {
        (&**self).describe()
    }

    fn comparison(&self, other: &Self) -> Changed<Self::Change> {
        (&**self).comparison(&**other)
    }
}

} // verus!
