use crate::types::{Changed, Comparable};
use vstd::prelude::*;

verus! {

/// A pair differences component by component: the description is the pair of
/// descriptions, and the change holds each component's two-state result, so
/// one side can change while the other is reported unchanged.
impl<A1: Comparable, A2: Comparable> Comparable for (A1, A2) {
    type Desc = (A1::Desc, A2::Desc);

    type Change = (Changed<A1::Change>, Changed<A2::Change>);

    open spec fn obeys() -> bool {
        A1::obeys() && A2::obeys()
    }

    open spec fn desc_rel(&self, d: Self::Desc) -> bool {
        self.0.desc_rel(d.0) && self.1.desc_rel(d.1)
    }

    open spec fn unchanged_with(&self, other: &(A1, A2)) -> bool {
        self.0.unchanged_with(&other.0) && self.1.unchanged_with(&other.1)
    }

    open spec fn change_rel(&self, other: &(A1, A2), c: Self::Change) -> bool {
        &&& (c.0 is Unchanged <==> self.0.unchanged_with(&other.0))
        &&& (c.0 matches Changed::Changed(x) ==> self.0.change_rel(&other.0, x))
        &&& (c.1 is Unchanged <==> self.1.unchanged_with(&other.1))
        &&& (c.1 matches Changed::Changed(x) ==> self.1.change_rel(&other.1, x))
    }

    proof fn lemma_reflexive(&self) {
        self.0.lemma_reflexive();
        self.1.lemma_reflexive();
    }

    fn describe(&self) -> Self::Desc {
        (self.0.describe(), self.1.describe())
    }

    fn comparison(&self, other: &Self) -> Changed<Self::Change> {
        let r0 = self.0.comparison(&other.0);
        let r1 = self.1.comparison(&other.1);
        if r0.is_unchanged() && r1.is_unchanged() {
            Changed::Unchanged
        } else {
            Changed::Changed((r0, r1))
        }
    }
}

/// A triple differences component by component, like a pair.
impl<A1: Comparable, A2: Comparable, A3: Comparable> Comparable for (A1, A2, A3) {
    type Desc = (A1::Desc, A2::Desc, A3::Desc);

    type Change = (Changed<A1::Change>, Changed<A2::Change>, Changed<A3::Change>);

    open spec fn obeys() -> bool {
        A1::obeys() && A2::obeys() && A3::obeys()
    }

    open spec fn desc_rel(&self, d: Self::Desc) -> bool {
        self.0.desc_rel(d.0) && self.1.desc_rel(d.1) && self.2.desc_rel(d.2)
    }

    open spec fn unchanged_with(&self, other: &(A1, A2, A3)) -> bool {
        self.0.unchanged_with(&other.0) && self.1.unchanged_with(&other.1)
            && self.2.unchanged_with(&other.2)
    }

    open spec fn change_rel(&self, other: &(A1, A2, A3), c: Self::Change) -> bool {
        &&& (c.0 is Unchanged <==> self.0.unchanged_with(&other.0))
        &&& (c.0 matches Changed::Changed(x) ==> self.0.change_rel(&other.0, x))
        &&& (c.1 is Unchanged <==> self.1.unchanged_with(&other.1))
        &&& (c.1 matches Changed::Changed(x) ==> self.1.change_rel(&other.1, x))
        &&& (c.2 is Unchanged <==> self.2.unchanged_with(&other.2))
        &&& (c.2 matches Changed::Changed(x) ==> self.2.change_rel(&other.2, x))
    }

    proof fn lemma_reflexive(&self) {
        self.0.lemma_reflexive();
        self.1.lemma_reflexive();
        self.2.lemma_reflexive();
    }

    fn describe(&self) -> Self::Desc {
        (self.0.describe(), self.1.describe(), self.2.describe())
    }

    fn comparison(&self, other: &Self) -> Changed<Self::Change> {
        let r0 = self.0.comparison(&other.0);
        let r1 = self.1.comparison(&other.1);
        let r2 = self.2.comparison(&other.2);
        if r0.is_unchanged() && r1.is_unchanged() && r2.is_unchanged() {
            Changed::Unchanged
        } else {
            Changed::Changed((r0, r1, r2))
        }
    }
}

} // verus!
