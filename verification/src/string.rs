use crate::types::{Changed, Comparable};
use vstd::prelude::*;

verus! {

/// The before and after contents of a changed `String`.
#[derive(PartialEq, Debug)]
pub struct StringChange(pub String, pub String);

impl Comparable for String {
    type Desc = String;

    type Change = StringChange;

    open spec fn obeys() -> bool {
        true
    }

    open spec fn desc_rel(&self, d: String) -> bool {
        d@ == self@
    }

    open spec fn unchanged_with(&self, other: &String) -> bool {
        self@ == other@
    }

    open spec fn change_rel(&self, other: &String, c: StringChange) -> bool {
        c.0@ == self@ && c.1@ == other@
    }

    proof fn lemma_reflexive(&self) {
    }

    fn describe(&self) -> Self::Desc {
        self.clone()
    }

    fn comparison(&self, other: &Self) -> Changed<Self::Change> {
        if *self != *other {
            Changed::Changed(StringChange(self.clone(), other.clone()))
        } else {
            Changed::Unchanged
        }
    }
}

} // verus!
