use crate::types::{Changed, Comparable};
use vstd::prelude::*;

verus! {

impl Comparable for () {
    type Desc = ();

    type Change = ();

    open spec fn obeys() -> bool {
        true
    }

    open spec fn desc_rel(&self, d: ()) -> bool {
        true
    }

    open spec fn unchanged_with(&self, other: &()) -> bool {
        true
    }

    open spec fn change_rel(&self, other: &(), c: ()) -> bool {
        false
    }

    proof fn lemma_reflexive(&self) {
    }

    fn describe(&self) -> Self::Desc {
        *self
    }

    fn comparison(&self, _other: &Self) -> Changed<Self::Change> {
        Changed::Unchanged
    }
}

/// The before and after states of a changed `bool`.
#[derive(Eq, PartialEq, Debug)]
pub struct BoolChange(pub bool, pub bool);

impl Comparable for bool {
    type Desc = bool;

    type Change = BoolChange;

    open spec fn obeys() -> bool {
        true
    }

    open spec fn desc_rel(&self, d: bool) -> bool {
        d == *self
    }

    open spec fn unchanged_with(&self, other: &bool) -> bool {
        *self == *other
    }

    open spec fn change_rel(&self, other: &bool, c: BoolChange) -> bool {
        c == BoolChange(*self, *other)
    }

    proof fn lemma_reflexive(&self) {
    }

    fn describe(&self) -> Self::Desc {
        *self
    }

    fn comparison(&self, other: &Self) -> Changed<Self::Change> {
        if self != other {
            Changed::Changed(BoolChange(*self, *other))
        } else {
            Changed::Unchanged
        }
    }
}

/// The before and after states of a changed `u8`.
#[derive(Eq, PartialEq, Debug)]
pub struct U8Change(pub u8, pub u8);

impl Comparable for u8 {
    type Desc = u8;

    type Change = U8Change;

    open spec fn obeys() -> bool {
        true
    }

    open spec fn desc_rel(&self, d: u8) -> bool {
        d == *self
    }

    open spec fn unchanged_with(&self, other: &u8) -> bool {
        *self == *other
    }

    open spec fn change_rel(&self, other: &u8, c: U8Change) -> bool {
        c == U8Change(*self, *other)
    }

    proof fn lemma_reflexive(&self) {
    }

    fn describe(&self) -> Self::Desc {
        *self
    }

    fn comparison(&self, other: &Self) -> Changed<Self::Change> {
        if self != other {
            Changed::Changed(U8Change(*self, *other))
        } else {
            Changed::Unchanged
        }
    }
}

/// The before and after states of a changed `i8`.
#[derive(Eq, PartialEq, Debug)]
pub struct I8Change(pub i8, pub i8);

impl Comparable for i8 {
    type Desc = i8;

    type Change = I8Change;

    open spec fn obeys() -> bool {
        true
    }

    open spec fn desc_rel(&self, d: i8) -> bool {
        d == *self
    }

    open spec fn unchanged_with(&self, other: &i8) -> bool {
        *self == *other
    }

    open spec fn change_rel(&self, other: &i8, c: I8Change) -> bool {
        c == I8Change(*self, *other)
    }

    proof fn lemma_reflexive(&self) {
    }

    fn describe(&self) -> Self::Desc {
        *self
    }

    fn comparison(&self, other: &Self) -> Changed<Self::Change> {
        if self != other {
            Changed::Changed(I8Change(*self, *other))
        } else {
            Changed::Unchanged
        }
    }
}

/// The before and after states of a changed `u16`.
#[derive(Eq, PartialEq, Debug)]
pub struct U16Change(pub u16, pub u16);

impl Comparable for u16 {
    type Desc = u16;

    type Change = U16Change;

    open spec fn obeys() -> bool {
        true
    }

    open spec fn desc_rel(&self, d: u16) -> bool {
        d == *self
    }

    open spec fn unchanged_with(&self, other: &u16) -> bool {
        *self == *other
    }

    open spec fn change_rel(&self, other: &u16, c: U16Change) -> bool {
        c == U16Change(*self, *other)
    }

    proof fn lemma_reflexive(&self) {
    }

    fn describe(&self) -> Self::Desc {
        *self
    }

    fn comparison(&self, other: &Self) -> Changed<Self::Change> {
        if self != other {
            Changed::Changed(U16Change(*self, *other))
        } else {
            Changed::Unchanged
        }
    }
}

/// The before and after states of a changed `i16`.
#[derive(Eq, PartialEq, Debug)]
pub struct I16Change(pub i16, pub i16);

impl Comparable for i16 {
    type Desc = i16;

    type Change = I16Change;

    open spec fn obeys() -> bool {
        true
    }

    open spec fn desc_rel(&self, d: i16) -> bool {
        d == *self
    }

    open spec fn unchanged_with(&self, other: &i16) -> bool {
        *self == *other
    }

    open spec fn change_rel(&self, other: &i16, c: I16Change) -> bool {
        c == I16Change(*self, *other)
    }

    proof fn lemma_reflexive(&self) {
    }

    fn describe(&self) -> Self::Desc {
        *self
    }

    fn comparison(&self, other: &Self) -> Changed<Self::Change> {
        if self != other {
            Changed::Changed(I16Change(*self, *other))
        } else {
            Changed::Unchanged
        }
    }
}

/// The before and after states of a changed `u32`.
#[derive(Eq, PartialEq, Debug)]
pub struct U32Change(pub u32, pub u32);

impl Comparable for u32 {
    type Desc = u32;

    type Change = U32Change;

    open spec fn obeys() -> bool {
        true
    }

    open spec fn desc_rel(&self, d: u32) -> bool {
        d == *self
    }

    open spec fn unchanged_with(&self, other: &u32) -> bool {
        *self == *other
    }

    open spec fn change_rel(&self, other: &u32, c: U32Change) -> bool {
        c == U32Change(*self, *other)
    }

    proof fn lemma_reflexive(&self) {
    }

    fn describe(&self) -> Self::Desc {
        *self
    }

    fn comparison(&self, other: &Self) -> Changed<Self::Change> {
        if self != other {
            Changed::Changed(U32Change(*self, *other))
        } else {
            Changed::Unchanged
        }
    }
}

/// The before and after states of a changed `i32`.
#[derive(Eq, PartialEq, Debug)]
pub struct I32Change(pub i32, pub i32);

impl Comparable for i32 {
    type Desc = i32;

    type Change = I32Change;

    open spec fn obeys() -> bool {
        true
    }

    open spec fn desc_rel(&self, d: i32) -> bool {
        d == *self
    }

    open spec fn unchanged_with(&self, other: &i32) -> bool {
        *self == *other
    }

    open spec fn change_rel(&self, other: &i32, c: I32Change) -> bool {
        c == I32Change(*self, *other)
    }

    proof fn lemma_reflexive(&self) {
    }

    fn describe(&self) -> Self::Desc {
        *self
    }

    fn comparison(&self, other: &Self) -> Changed<Self::Change> {
        if self != other {
            Changed::Changed(I32Change(*self, *other))
        } else {
            Changed::Unchanged
        }
    }
}

/// The before and after states of a changed `u64`.
#[derive(Eq, PartialEq, Debug)]
pub struct U64Change(pub u64, pub u64);

impl Comparable for u64 {
    type Desc = u64;

    type Change = U64Change;

    open spec fn obeys() -> bool {
        true
    }

    open spec fn desc_rel(&self, d: u64) -> bool {
        d == *self
    }

    open spec fn unchanged_with(&self, other: &u64) -> bool {
        *self == *other
    }

    open spec fn change_rel(&self, other: &u64, c: U64Change) -> bool {
        c == U64Change(*self, *other)
    }

    proof fn lemma_reflexive(&self) {
    }

    fn describe(&self) -> Self::Desc {
        *self
    }

    fn comparison(&self, other: &Self) -> Changed<Self::Change> {
        if self != other {
            Changed::Changed(U64Change(*self, *other))
        } else {
            Changed::Unchanged
        }
    }
}

/// The before and after states of a changed `i64`.
#[derive(Eq, PartialEq, Debug)]
pub struct I64Change(pub i64, pub i64);

impl Comparable for i64 {
    type Desc = i64;

    type Change = I64Change;

    open spec fn obeys() -> bool {
        true
    }

    open spec fn desc_rel(&self, d: i64) -> bool {
        d == *self
    }

    open spec fn unchanged_with(&self, other: &i64) -> bool {
        *self == *other
    }

    open spec fn change_rel(&self, other: &i64, c: I64Change) -> bool {
        c == I64Change(*self, *other)
    }

    proof fn lemma_reflexive(&self) {
    }

    fn describe(&self) -> Self::Desc {
        *self
    }

    fn comparison(&self, other: &Self) -> Changed<Self::Change> {
        if self != other {
            Changed::Changed(I64Change(*self, *other))
        } else {
            Changed::Unchanged
        }
    }
}

/// The before and after states of a changed `usize`.
#[derive(Eq, PartialEq, Debug)]
pub struct UsizeChange(pub usize, pub usize);

impl Comparable for usize {
    type Desc = usize;

    type Change = UsizeChange;

    open spec fn obeys() -> bool {
        true
    }

    open spec fn desc_rel(&self, d: usize) -> bool {
        d == *self
    }

    open spec fn unchanged_with(&self, other: &usize) -> bool {
        *self == *other
    }

    open spec fn change_rel(&self, other: &usize, c: UsizeChange) -> bool {
        c == UsizeChange(*self, *other)
    }

    proof fn lemma_reflexive(&self) {
    }

    fn describe(&self) -> Self::Desc {
        *self
    }

    fn comparison(&self, other: &Self) -> Changed<Self::Change> {
        if self != other {
            Changed::Changed(UsizeChange(*self, *other))
        } else {
            Changed::Unchanged
        }
    }
}

/// The before and after states of a changed `isize`.
#[derive(Eq, PartialEq, Debug)]
pub struct IsizeChange(pub isize, pub isize);

impl Comparable for isize {
    type Desc = isize;

    type Change = IsizeChange;

    open spec fn obeys() -> bool {
        true
    }

    open spec fn desc_rel(&self, d: isize) -> bool {
        d == *self
    }

    open spec fn unchanged_with(&self, other: &isize) -> bool {
        *self == *other
    }

    open spec fn change_rel(&self, other: &isize, c: IsizeChange) -> bool {
        c == IsizeChange(*self, *other)
    }

    proof fn lemma_reflexive(&self) {
    }

    fn describe(&self) -> Self::Desc {
        *self
    }

    fn comparison(&self, other: &Self) -> Changed<Self::Change> {
        if self != other {
            Changed::Changed(IsizeChange(*self, *other))
        } else {
            Changed::Unchanged
        }
    }
}

/// The before and after states of a changed `char`.
#[derive(Eq, PartialEq, Debug)]
pub struct CharChange(pub char, pub char);

impl Comparable for char {
    type Desc = char;

    type Change = CharChange;

    open spec fn obeys() -> bool {
        true
    }

    open spec fn desc_rel(&self, d: char) -> bool {
        d == *self
    }

    open spec fn unchanged_with(&self, other: &char) -> bool {
        *self == *other
    }

    open spec fn change_rel(&self, other: &char, c: CharChange) -> bool {
        c == CharChange(*self, *other)
    }

    proof fn lemma_reflexive(&self) {
    }

    fn describe(&self) -> Self::Desc {
        *self
    }

    fn comparison(&self, other: &Self) -> Changed<Self::Change> {
        if self != other {
            Changed::Changed(CharChange(*self, *other))
        } else {
            Changed::Unchanged
        }
    }
}

} // verus!
