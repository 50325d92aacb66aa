//! Handles to objects that are reached through their traits.

use std::sync::Arc;
use vstd::prelude::*;

verus! {

/// Compares two handles with `std::sync::Arc::ptr_eq`, which tells whether both
/// point to the same allocation. Claimed of it: handles to the same allocation
/// reach the same object. Nothing is claimed where the answer is no, for objects
/// of equal value may live in different places.
#[verifier::external_body]
fn same_allocation<T: ?Sized>(a: &Arc<T>, b: &Arc<T>) -> (r: bool)
    ensures
        r ==> *a == *b,
{
    Arc::ptr_eq(a, b)
}

/// A handle to an object that has several owners.
pub struct Shared<T: ?Sized>(Arc<T>);

impl<T: ?Sized> Shared<T> {
    /// The object.
    pub closed spec fn obj(&self) -> &T {
        &*self.0
    }

    /// Creates a handle from a reference-counted object.
    pub fn new(object: Arc<T>) -> (r: Self)
        ensures
            r.obj() == &*object,
    {
        Shared(object)
    }

    /// Returns the object.
    pub fn get(&self) -> (r: &T)
        ensures
            r == self.obj(),
    {
        &*self.0
    }

    /// Returns whether both handles belong to one object. Two objects of equal
    /// value are told apart, which their values do not show.
    pub fn is_same(&self, other: &Self) -> (r: bool)
        ensures
            r ==> *self == *other,
    {
        same_allocation(&self.0, &other.0)
    }
}

impl<T: ?Sized> Clone for Shared<T> {
    fn clone(&self) -> (r: Self)
        ensures
            r == *self,
    {
        Shared(self.0.clone())
    }
}

/// A handle to an object that someone else owns.
pub struct Borrowed<'a, T: ?Sized + 'a>(&'a T);

impl<'a, T: ?Sized + 'a> Borrowed<'a, T> {
    /// The object.
    pub closed spec fn obj(&self) -> &T {
        self.0
    }

    /// Creates a handle from a reference.
    pub fn new(object: &'a T) -> (r: Self)
        ensures
            r.obj() == object,
    {
        Borrowed(object)
    }

    /// Returns the object.
    pub fn get(&self) -> (r: &T)
        ensures
            r == self.obj(),
    {
        self.0
    }
}

/// A handle to an object that is lent for use by one holder.
pub struct Lent<'a, T: ?Sized + 'a>(&'a mut T);

impl<'a, T: ?Sized + 'a> Lent<'a, T> {
    /// The object.
    pub closed spec fn obj(&self) -> &T {
        &*self.0
    }

    /// Creates a handle from a reference.
    pub fn new(object: &'a mut T) -> (r: Self)
        ensures
            r.obj() == &*old(object),
    {
        Lent(object)
    }

    /// Returns the object.
    pub fn get(&mut self) -> (r: &mut T)
        ensures
            &*r == old(self).obj(),
            final(self).obj() == &*final(r),
    {
        &mut *self.0
    }
}

} // verus!
