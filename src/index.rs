//! References into the document's collections.
use vstd::prelude::*;

verus! {

/// A zero-based position in a collection of `T`s. It owns nothing and is
/// not checked when made: only validation, which sees the collection, can
/// tell whether it points at an element.
#[derive(Debug)]
pub struct Index<T> {
    value: u32,
    kind: core::marker::PhantomData<T>,
}

impl<T> View for Index<T> {
    type V = nat;

    closed spec fn view(&self) -> nat {
        self.value as nat
    }
}

impl<T> Index<T> {
    /// The reference to position `value`.
    pub fn new(value: u32) -> (r: Index<T>)
        ensures
            r@ == value as nat,
    {
        Index { value, kind: core::marker::PhantomData }
    }

    /// The position this reference points at.
    pub fn value(&self) -> (r: u32)
        ensures
            r as nat == self@,
    {
        self.value
    }
}

impl<T> Clone for Index<T> {
    fn clone(&self) -> (r: Index<T>)
        ensures
            r@ == self@,
    {
        Index { value: self.value, kind: core::marker::PhantomData }
    }
}

impl<T> Copy for Index<T> {
}

/// Marks a reference into the document's accessors.
#[derive(Clone, Debug)]
pub struct Accessor {}

/// Marks a reference into the document's scene nodes.
#[derive(Clone, Debug)]
pub struct Node {}

} // verus!
