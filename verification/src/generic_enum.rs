use crate::string::StringChange;
use crate::types::{Changed, Comparable};
use vstd::prelude::*;

verus! {

/// A value referred to either by a textual identifier or by the object
/// itself: a two-variant sum whose differencing follows the sum-type rule.
#[derive(PartialEq, Debug)]
pub enum IdOrObject<T: PartialEq + core::fmt::Debug> {
    ID(String),
    Object(T),
}

/// The description of an [`IdOrObject`]: the mirror of the sum with each
/// variant's field described.
#[derive(PartialEq, Debug)]
pub enum IdOrObjectDesc<TDesc> {
    ID(String),
    Object(TDesc),
}

/// The change between two [`IdOrObject`] values: the identifier's change or
/// the object's change when the variants agree, else the two descriptions.
#[derive(PartialEq, Debug)]
pub enum IdOrObjectChange<TDesc, TChange> {
    BothID(StringChange),
    BothObject(TChange),
    Different(IdOrObjectDesc<TDesc>, IdOrObjectDesc<TDesc>),
}

impl<T: PartialEq + core::fmt::Debug + Comparable> Comparable for IdOrObject<T> {
    type Desc = IdOrObjectDesc<T::Desc>;

    type Change = IdOrObjectChange<T::Desc, T::Change>;

    open spec fn obeys() -> bool {
        T::obeys()
    }

    open spec fn desc_rel(&self, d: Self::Desc) -> bool {
        match self {
            IdOrObject::ID(s) => d matches IdOrObjectDesc::ID(ds) && ds@ == s@,
            IdOrObject::Object(x) => d matches IdOrObjectDesc::Object(dx) && x.desc_rel(dx),
        }
    }

    open spec fn unchanged_with(&self, other: &Self) -> bool {
        match (self, other) {
            (IdOrObject::ID(s1), IdOrObject::ID(s2)) => s1@ == s2@,
            (IdOrObject::Object(x1), IdOrObject::Object(x2)) => x1.unchanged_with(x2),
            _ => false,
        }
    }

    open spec fn change_rel(&self, other: &Self, c: Self::Change) -> bool {
        match (self, other) {
            (IdOrObject::ID(s1), IdOrObject::ID(s2)) => c matches IdOrObjectChange::BothID(p)
                && p.0@ == s1@ && p.1@ == s2@,
            (IdOrObject::Object(x1), IdOrObject::Object(x2)) => c matches
                IdOrObjectChange::BothObject(ch) && x1.change_rel(x2, ch),
            _ => c matches IdOrObjectChange::Different(da, db) && self.desc_rel(da)
                && other.desc_rel(db),
        }
    }

    proof fn lemma_reflexive(&self) {
        match self {
            IdOrObject::ID(_s) => {
            },
            IdOrObject::Object(x) => {
                x.lemma_reflexive();
            },
        }
    }

    fn describe(&self) -> Self::Desc {
        match self {
            IdOrObject::ID(s) => IdOrObjectDesc::ID(s.clone()),
            IdOrObject::Object(x) => IdOrObjectDesc::Object(x.describe()),
        }
    }

    fn comparison(&self, other: &Self) -> Changed<Self::Change> {
        match (self, other) {
            (IdOrObject::ID(s1), IdOrObject::ID(s2)) => {
                if *s1 != *s2 {
                    Changed::Changed(
                        IdOrObjectChange::BothID(StringChange(s1.clone(), s2.clone())),
                    )
                } else {
                    Changed::Unchanged
                }
            },
            (IdOrObject::Object(x1), IdOrObject::Object(x2)) => {
                match x1.comparison(x2) {
                    Changed::Unchanged => Changed::Unchanged,
                    Changed::Changed(ch) => Changed::Changed(IdOrObjectChange::BothObject(ch)),
                }
            },
            (_, _) => Changed::Changed(
                IdOrObjectChange::Different(self.describe(), other.describe()),
            ),
        }
    }
}

} // verus!
