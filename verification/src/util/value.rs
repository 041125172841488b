//! Value shapes used by the configuration: one-or-many, and borrowed-or-owned.

use core::ops::Deref;
use vstd::prelude::*;

verus! {

/// `core::slice::from_ref`: a reference seen as a slice that holds that one element.
pub assume_specification<T>[ core::slice::from_ref::<T> ](s: &T) -> (r: &[T])
    ensures
        r@ == seq![*s],
;

/// Either a single value or an ordered run of values.
///
/// A field of this type can be written as one value where one is enough; whoever reads it
/// goes through [`SingleOrVec::as_slice`] and always sees a sequence.
#[derive(Debug, PartialEq, Eq)]
pub enum SingleOrVec<T> {
    Single(T),
    Vec(Vec<T>),
}

impl<T> SingleOrVec<T> {
    /// The values in order: one element for `Single`, the vector's elements for `Vec`.
    pub open spec fn as_seq(&self) -> Seq<T> {
        match self {
            SingleOrVec::Single(x) => seq![*x],
            SingleOrVec::Vec(v) => v@,
        }
    }

    /// The number of values held.
    pub fn len(&self) -> (n: usize)
        ensures
            n == self.as_seq().len(),
    {
        match self {
            SingleOrVec::Single(_) => 1,
            SingleOrVec::Vec(v) => v.len(),
        }
    }

    /// The values as a slice, whichever shape they were written in.
    pub fn as_slice(&self) -> (s: &[T])
        ensures
            s@ == self.as_seq(),
    {
        match self {
            SingleOrVec::Single(x) => core::slice::from_ref(x),
            SingleOrVec::Vec(v) => v.as_slice(),
        }
    }
}

/// Either a reference to a `T` that lives elsewhere or a `T` held here.
///
/// Like `std::borrow::Cow`, but it never asks for ownership: it is only read.
pub enum Referable<'a, T> {
    Borrowed(&'a T),
    Owned(T),
}

impl<'a, T> Referable<'a, T> {
    /// The value that reading through this wrapper gives.
    pub open spec fn value(&self) -> T {
        match self {
            Referable::Borrowed(x) => **x,
            Referable::Owned(x) => *x,
        }
    }
}

impl<'a, T> Deref for Referable<'a, T> {
    type Target = T;

    fn deref(&self) -> (r: &T)
        ensures
            *r == self.value(),
    {
        match self {
            Referable::Borrowed(x) => x,
            Referable::Owned(x) => x,
        }
    }
}

} // verus!
