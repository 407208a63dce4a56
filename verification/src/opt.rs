use crate::types::{Changed, Comparable};
use vstd::prelude::*;

verus! {

/// The change between two optional values: either both are present and the
/// inner value changed, or the presence itself differs.  Two absent values
/// compare `Unchanged`, so no variant represents that case.
#[derive(Eq, PartialEq, Debug)]
pub enum OptionChange<Desc, Change> {
    BothSome(Change),
    Different(Desc, Desc),
}

impl<T: Comparable> Comparable for Option<T> {
    type Desc = Option<T::Desc>;

    type Change = OptionChange<Option<T::Desc>, T::Change>;

    open spec fn obeys() -> bool {
        T::obeys()
    }

    open spec fn desc_rel(&self, d: Option<T::Desc>) -> bool {
        match *self {
            Option::None => d is None,
            Option::Some(x) => d matches Option::Some(dx) && x.desc_rel(dx),
        }
    }

    open spec fn unchanged_with(&self, other: &Option<T>) -> bool {
        match (self, other) {
            (Option::None, Option::None) => true,
            (Option::Some(x), Option::Some(y)) => x.unchanged_with(y),
            _ => false,
        }
    }

    open spec fn change_rel(&self, other: &Option<T>, c: Self::Change) -> bool {
        match (self, other) {
            (Option::None, Option::None) => false,
            (Option::Some(x), Option::Some(y)) => c matches OptionChange::BothSome(ch)
                && x.change_rel(y, ch),
            _ => c matches OptionChange::Different(da, db) && self.desc_rel(da) && other.desc_rel(
                db,
            ),
        }
    }

    proof fn lemma_reflexive(&self) {
        match self {
            Option::None => {
            },
            Option::Some(x) => {
                x.lemma_reflexive();
            },
        }
    }

    fn describe(&self) -> Self::Desc {
        match self {
            Option::None => Option::None,
            Option::Some(x) => Option::Some(x.describe()),
        }
    }

    fn comparison(&self, other: &Self) -> Changed<Self::Change> {
        match (self, other) {
            (Option::None, Option::None) => Changed::Unchanged,
            (Option::Some(x), Option::Some(y)) => match x.comparison(y) {
                Changed::Unchanged => Changed::Unchanged,
                Changed::Changed(ch) => Changed::Changed(OptionChange::BothSome(ch)),
            },
            (_, _) => Changed::Changed(
                OptionChange::Different(self.describe(), other.describe()),
            ),
        }
    }
}

} // verus!
