//! A cell that hands its content to a closure.

use vstd::prelude::*;

verus! {

/// A value that is read and written only through closures.
pub struct UnsafeCell<T>(T);

impl<T> View for UnsafeCell<T> {
    type V = T;

    closed spec fn view(&self) -> T {
        self.0
    }
}

impl<T> UnsafeCell<T> {
    /// Wraps `data`.
    pub fn new(data: T) -> (cell: UnsafeCell<T>)
        ensures
            cell@ == data,
    {
        UnsafeCell(data)
    }

    /// Calls `f` on the content and returns what `f` returns.
    pub fn with<R, F: FnOnce(&T) -> R>(&self, f: F) -> (r: R)
        requires
            f.requires((&self@,)),
        ensures
            f.ensures((&self@,), r),
    {
        f(&self.0)
    }

    /// Calls `f` on the content, which `f` may change, and returns what `f`
    /// returns.
    pub fn with_mut<R, F: FnOnce(&mut T) -> R>(&mut self, f: F) -> (r: R)
        requires
            forall|p: &mut T| *p == old(self)@ ==> f.requires((p,)),
        ensures
            exists|p: &mut T| *p == old(self)@ && *final(p) == final(self)@ && f.ensures((p,), r),
    {
        f(&mut self.0)
    }
}

} // verus!
