use vstd::prelude::*;

verus! {

/// The two-state result of a comparison: either nothing changed, or a payload
/// describing exactly what did.  `Unchanged` carries no payload; a payload is
/// only ever present when at least one difference exists.
#[derive(PartialEq, Debug)]
pub enum Changed<T> {
    Unchanged,
    Changed(T),
}

impl<T> Changed<T> {
    /// Transforms the payload, preserving `Unchanged`.
    pub fn map<U, F: FnOnce(T) -> U>(self, f: F) -> (r: Changed<U>)
        requires
            self matches Changed::Changed(x) ==> call_requires(f, (x,)),
        ensures
            self is Unchanged <==> r is Unchanged,
            self matches Changed::Changed(x) ==> (r matches Changed::Changed(y) ==> call_ensures(
                f,
                (x,),
                y,
            )),
    {
        match self {
            Changed::Unchanged => Changed::Unchanged,
            Changed::Changed(x) => Changed::Changed(f(x)),
        }
    }

    /// Removes and returns the payload, if any, leaving `Unchanged` behind.
    pub fn take(&mut self) -> (r: Option<T>)
        ensures
            *final(self) is Unchanged,
            *old(self) matches Changed::Changed(x) ==> r == Option::Some(x),
            *old(self) is Unchanged ==> r is None,
    {
        let mut slot = Changed::Unchanged;
        core::mem::swap(self, &mut slot);
        match slot {
            Changed::Unchanged => Option::None,
            Changed::Changed(x) => Option::Some(x),
        }
    }

    /// Folds into a list of zero or one changes, leaving `Unchanged` behind.
    pub fn to_changes(&mut self) -> (r: Vec<T>)
        ensures
            *final(self) is Unchanged,
            *old(self) matches Changed::Changed(x) ==> r@ == seq![x],
            *old(self) is Unchanged ==> r@ == Seq::<T>::empty(),
    {
        let mut slot = Changed::Unchanged;
        core::mem::swap(self, &mut slot);
        match slot {
            Changed::Unchanged => Vec::new(),
            Changed::Changed(x) => {
                let mut one = Vec::new();
                one.push(x);
                one
            },
        }
    }

    /// Whether this result reports no difference at all.
    pub fn is_unchanged(&self) -> (r: bool)
        ensures
            r == (*self is Unchanged),
    {
        match self {
            Changed::Unchanged => true,
            Changed::Changed(_) => false,
        }
    }
}

impl<T: core::default::Default> Changed<T> {
    /// Returns the payload, or the payload type's default value when unchanged.
    pub fn unwrap_or_default(self) -> (r: T)
        ensures
            self matches Changed::Changed(x) ==> r == x,
            self is Unchanged ==> call_ensures(T::default, (), r),
    {
        match self {
            Changed::Changed(x) => x,
            Changed::Unchanged => T::default(),
        }
    }
}

impl<T> core::default::Default for Changed<T> {
    /// `Unchanged` is the identity and default state.
    fn default() -> (r: Self)
        ensures
            r is Unchanged,
    {
        Changed::Unchanged
    }
}

impl<T> core::convert::From<Option<T>> for Changed<T> {
    fn from(opt: Option<T>) -> (r: Self) {
        match opt {
            Option::None => Changed::Unchanged,
            Option::Some(x) => Changed::Changed(x),
        }
    }
}

impl<T> vstd::std_specs::convert::FromSpecImpl<Option<T>> for Changed<T> {
    open spec fn obeys_from_spec() -> bool {
        true
    }

    open spec fn from_spec(opt: Option<T>) -> Self {
        match opt {
            Option::None => Changed::Unchanged,
            Option::Some(x) => Changed::Changed(x),
        }
    }
}

/// A type that can describe itself and report the differences between two of
/// its values.
///
/// Each instance fixes, as specification functions, what its `describe` and
/// `comparison` return: `unchanged_with` says when two values count as equal
/// for differencing, `desc_rel` pins the description, and `change_rel` pins
/// the change payload.  `obeys` gates those promises on whatever is known of
/// the std trait impls an instance leans on (key models of hash containers,
/// order laws of `Ord` keys, clone faithfulness); for the scalar instances it
/// is simply `true`.
pub trait Comparable: Sized {
    /// Describes a value of the type: a comparable, printable summary.
    type Desc: PartialEq + core::fmt::Debug;

    /// Reflects all changes between two values of the type.
    type Change: PartialEq + core::fmt::Debug;

    /// Whether the contracts of `describe` and `comparison` are in force.
    spec fn obeys() -> bool;

    /// Exactly when `d` is the description of `self`.
    spec fn desc_rel(&self, d: Self::Desc) -> bool;

    /// When two values count as unchanged under differencing.
    spec fn unchanged_with(&self, other: &Self) -> bool;

    /// Exactly when `c` is the change payload reported for `self` to `other`.
    spec fn change_rel(&self, other: &Self, c: Self::Change) -> bool;

    /// Every value is unchanged with respect to itself, so `comparison` of a
    /// value with itself reports `Unchanged`.
    proof fn lemma_reflexive(&self)
        ensures
            self.unchanged_with(self),
    ;

    /// Describe a value of the type.
    fn describe(&self) -> (d: Self::Desc)
        ensures
            Self::obeys() ==> self.desc_rel(d),
    ;

    /// Compare two values of the type: `Unchanged` exactly when they agree,
    /// else `Changed` with the complete set of differences.
    fn comparison(&self, other: &Self) -> (r: Changed<Self::Change>)
        ensures
            Self::obeys() ==> ((r is Unchanged) <==> self.unchanged_with(other)),
            Self::obeys() ==> (r matches Changed::Changed(c) ==> self.change_rel(other, c)),
    ;
}

/// Whether cloning a value of the type always yields the value itself.  The
/// derived `Clone` of keys behaves so; nothing verified checks it, so
/// contracts that copy keys are conditional on it.
pub open spec fn clone_faithful<T: Clone>() -> bool {
    forall|a: T, b: T| #[trigger] vstd::pervasive::cloned::<T>(a, b) ==> b == a
}

/// A reference compares as the value it points to.
impl<'a, T: Comparable> Comparable for &'a T {
    type Desc = T::Desc;

    type Change = T::Change;

    open spec fn obeys() -> bool {
        T::obeys()
    }

    open spec fn desc_rel(&self, d: T::Desc) -> bool {
        (**self).desc_rel(d)
    }

    open spec fn unchanged_with(&self, other: &&'a T) -> bool {
        (**self).unchanged_with(*other)
    }

    open spec fn change_rel(&self, other: &&'a T, c: T::Change) -> bool {
        (**self).change_rel(*other, c)
    }

    proof fn lemma_reflexive(&self) {
        (**self).lemma_reflexive();
    }

    fn describe(&self) -> Self::Desc {
        (**self).describe()
    }

    fn comparison(&self, other: &Self) -> Changed<Self::Change> {
        (**self).comparison(*other)
    }
}

/// Repeated comparisons of one pair of values always agree: the contract of
/// `comparison` ties `Unchanged` to `unchanged_with` alone, so two results for
/// the same pair are `Unchanged` together, and each payload satisfies the same
/// `change_rel`.
pub proof fn lemma_comparison_deterministic<T: Comparable>(
    a: &T,
    b: &T,
    r1: Changed<T::Change>,
    r2: Changed<T::Change>,
)
    requires
        T::obeys(),
        (r1 is Unchanged) <==> a.unchanged_with(b),
        r1 matches Changed::Changed(c) ==> a.change_rel(b, c),
        (r2 is Unchanged) <==> a.unchanged_with(b),
        r2 matches Changed::Changed(c) ==> a.change_rel(b, c),
    ensures
        (r1 is Unchanged) == (r2 is Unchanged),
{
}

/// Comparing a value with itself reports `Unchanged`.
pub proof fn lemma_comparison_reflexive<T: Comparable>(x: &T, r: Changed<T::Change>)
    requires
        T::obeys(),
        (r is Unchanged) <==> x.unchanged_with(x),
    ensures
        r is Unchanged,
{
    x.lemma_reflexive();
}

} // verus!
