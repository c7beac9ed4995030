//! Views and transfers of buffers handed across an FFI boundary without copying.

use vstd::prelude::*;

verus! {

/// A zero-copy view of a slice: it borrows the data, never copies it.
pub struct ZeroCopySlice<'a, T> {
    data: &'a [T],
}

impl<'a, T> View for ZeroCopySlice<'a, T> {
    type V = Seq<T>;

    closed spec fn view(&self) -> Seq<T> {
        self.data@
    }
}

impl<'a, T> ZeroCopySlice<'a, T> {
    /// Create from a Rust slice — no copying.
    pub fn from_slice(slice: &'a [T]) -> (r: Self)
        ensures
            r@ == slice@,
    {
        ZeroCopySlice { data: slice }
    }

    /// Get the length.
    pub fn len(&self) -> (r: usize)
        ensures
            r == self@.len(),
    {
        self.data.len()
    }

    /// Check if empty.
    pub fn is_empty(&self) -> (r: bool)
        ensures
            r == (self@.len() == 0),
    {
        self.data.len() == 0
    }

    /// The viewed slice itself.
    pub fn as_slice(&self) -> (r: &'a [T])
        ensures
            r@ == self@,
    {
        self.data
    }
}

impl<'a, T> Clone for ZeroCopySlice<'a, T> {
    fn clone(&self) -> (r: Self)
        ensures
            r@ == self@,
    {
        ZeroCopySlice { data: self.data }
    }
}

impl<'a, T> Copy for ZeroCopySlice<'a, T> {

}

/// A mutable zero-copy view for read-write access across FFI. The borrowed
/// slice is `data`: whatever it holds when the view is given up is what the
/// caller's buffer holds afterwards.
pub struct ZeroCopySliceMut<'a, T> {
    pub data: &'a mut [T],
}

impl<'a, T> View for ZeroCopySliceMut<'a, T> {
    type V = Seq<T>;

    open spec fn view(&self) -> Seq<T> {
        self.data@
    }
}

impl<'a, T> ZeroCopySliceMut<'a, T> {
    /// Create from a mutable Rust slice.
    pub fn from_slice(slice: &'a mut [T]) -> (r: Self)
        ensures
            r@ == old(slice)@,
            (*final(r.data))@ == final(slice)@,
    {
        ZeroCopySliceMut { data: slice }
    }

    /// Get the length.
    pub fn len(&self) -> (r: usize)
        ensures
            r == self@.len(),
    {
        self.data.len()
    }

    /// The viewed slice, for writing through.
    pub fn as_mut_slice(&mut self) -> (r: &mut [T])
        ensures
            r@ == old(self)@,
            final(self)@ == final(r)@,
            (*final(final(self).data))@ == (*final(old(self).data))@,
    {
        &mut *self.data
    }
}

/// Transfer of a `Vec` across FFI: the sender gives up the vector, and the
/// receiver reclaims it unchanged.
pub struct ZeroCopyTransfer<T> {
    data: Vec<T>,
}

impl<T> View for ZeroCopyTransfer<T> {
    type V = Seq<T>;

    closed spec fn view(&self) -> Seq<T> {
        self.data@
    }
}

impl<T> ZeroCopyTransfer<T> {
    /// Create from a Vec, taking it over without copying.
    pub fn from_vec(vec: Vec<T>) -> (r: Self)
        ensures
            r@ == vec@,
    {
        ZeroCopyTransfer { data: vec }
    }

    /// Get the length.
    pub fn len(&self) -> (r: usize)
        ensures
            r == self@.len(),
    {
        self.data.len()
    }

    /// Reclaim the data back into a Vec.
    pub fn reclaim(self) -> (r: Vec<T>)
        ensures
            r@ == self@,
    {
        self.data
    }

    /// A read-only view of the transferred data.
    pub fn as_slice(&self) -> (r: &[T])
        ensures
            r@ == self@,
    {
        self.data.as_slice()
    }
}

} // verus!
