//! Owned values tied to a lifetime.
use vstd::prelude::*;
use std::marker::PhantomData;

verus! {

/// An owned value which is immutable, but also has a lifetime.
pub struct Const<'a, T>(pub(crate) T, pub(crate) PhantomData<&'a ()>);

impl<'a, T> View for Const<'a, T> {
    type V = T;

    closed spec fn view(&self) -> T {
        self.0
    }
}

impl<'a, T> Const<'a, T> {
    /// Wraps `value`.
    pub fn new(value: T) -> (c: Const<'a, T>)
        ensures
            c@ == value,
    {
        Const(value, PhantomData)
    }
}

impl<'a, T> std::ops::Deref for Const<'a, T> {
    type Target = T;

    fn deref(&self) -> (r: &T)
        ensures
            *r == self@,
    {
        &self.0
    }
}

/// An owned value which is mutable, but also has a lifetime.
pub struct Mut<'a, T>(pub(crate) T, pub(crate) PhantomData<&'a ()>);

impl<'a, T> View for Mut<'a, T> {
    type V = T;

    closed spec fn view(&self) -> T {
        self.0
    }
}

impl<'a, T> Mut<'a, T> {
    /// Wraps `value`.
    pub fn new(value: T) -> (m: Mut<'a, T>)
        ensures
            m@ == value,
    {
        Mut(value, PhantomData)
    }
}

impl<'a, T> std::ops::Deref for Mut<'a, T> {
    type Target = T;

    fn deref(&self) -> (r: &T)
        ensures
            *r == self@,
    {
        &self.0
    }
}

impl<'a, T> std::ops::DerefMut for Mut<'a, T> {
    fn deref_mut(&mut self) -> (r: &mut T)
        ensures
            *r == old(self)@,
            final(self)@ == *final(r),
    {
        &mut self.0
    }
}

} // verus!
