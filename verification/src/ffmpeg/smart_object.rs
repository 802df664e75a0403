//! A value paired with the function that releases it.
use vstd::prelude::*;

verus! {

/// A value together with the destructor meant to release it. The
/// destructor is held, not run: there is no release on drop, so an owner
/// that needs the value released calls the destructor on it itself.
pub struct SmartObject<T, F: Fn(&mut T)> {
    value: T,
    destructor: F,
}

impl<T, F: Fn(&mut T)> View for SmartObject<T, F> {
    type V = T;

    closed spec fn view(&self) -> T {
        self.value
    }
}

impl<T, F: Fn(&mut T)> SmartObject<T, F> {
    /// The destructor held.
    pub closed spec fn destructor_fn(self) -> F {
        self.destructor
    }

    /// Pairs `value` with `destructor`.
    pub fn new(value: T, destructor: F) -> (r: SmartObject<T, F>)
        ensures
            r@ == value,
            r.destructor_fn() == destructor,
    {
        SmartObject { value, destructor }
    }

    /// Replaces the destructor.
    pub fn set_destructor(&mut self, destructor: F)
        ensures
            final(self)@ == old(self)@,
            final(self).destructor_fn() == destructor,
    {
        self.destructor = destructor;
    }

    /// Consumes the object and returns the value, without releasing it.
    pub fn into_inner(self) -> (r: T)
        ensures
            r == self@,
    {
        self.value
    }

    /// Returns a copy of the value.
    pub fn inner(&self) -> (r: T)
        where
            T: Copy,
        ensures
            r == self@,
    {
        self.value
    }

    /// Returns a mutable reference to the value.
    pub fn inner_mut(&mut self) -> (r: &mut T)
        ensures
            *r == old(self)@,
            final(self)@ == *final(r),
    {
        &mut self.value
    }

    /// Returns a reference to the value.
    pub fn inner_ref(&self) -> (r: &T)
        ensures
            *r == self@,
    {
        &self.value
    }

    /// Returns a reference to the value.
    pub fn as_ref(&self) -> (r: &T)
        ensures
            *r == self@,
    {
        &self.value
    }

    /// Returns a mutable reference to the value.
    pub fn as_mut(&mut self) -> (r: &mut T)
        ensures
            *r == old(self)@,
            final(self)@ == *final(r),
    {
        &mut self.value
    }
}

impl<T, F: Fn(&mut T)> std::ops::Deref for SmartObject<T, F> {
    type Target = T;

    fn deref(&self) -> (r: &T)
        ensures
            *r == self@,
    {
        &self.value
    }
}

impl<T, F: Fn(&mut T)> std::ops::DerefMut for SmartObject<T, F> {
    fn deref_mut(&mut self) -> (r: &mut T)
        ensures
            *r == old(self)@,
            final(self)@ == *final(r),
    {
        &mut self.value
    }
}

} // verus!
