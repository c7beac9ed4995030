//! An owned, C-compatible vector that is handed across FFI and back.

use vstd::prelude::*;

verus! {

/// An owned vector for FFI transfer: its elements, length and capacity
/// travel together and come back as the same `Vec`.
#[derive(Debug)]
pub struct CVec<T> {
    data: Vec<T>,
}

impl<T> View for CVec<T> {
    type V = Seq<T>;

    closed spec fn view(&self) -> Seq<T> {
        self.data@
    }
}

impl<T> CVec<T> {
    /// Create an empty CVec.
    pub fn new() -> (r: Self)
        ensures
            r@ == Seq::<T>::empty(),
    {
        CVec { data: Vec::new() }
    }

    /// Create from a Rust Vec.
    pub fn from_vec(v: Vec<T>) -> (r: Self)
        ensures
            r@ == v@,
    {
        CVec { data: v }
    }

    /// Get the length.
    pub fn len(&self) -> (r: usize)
        ensures
            r == self@.len(),
    {
        self.data.len()
    }

    /// Check if empty.
    pub fn is_empty(&self) -> (r: bool)
        ensures
            r == (self@.len() == 0),
    {
        self.data.len() == 0
    }

    /// Access element by index.
    pub fn get(&self, index: usize) -> (r: Option<&T>)
        ensures
            match r {
                Some(x) => index < self@.len() && *x == self@[index as int],
                None => index >= self@.len(),
            },
    {
        if index < self.data.len() {
            Some(&self.data[index])
        } else {
            None
        }
    }

    /// The elements as a slice.
    pub fn as_slice(&self) -> (r: &[T])
        ensures
            r@ == self@,
    {
        self.data.as_slice()
    }

    /// Convert back into a Vec, taking ownership.
    pub fn into_vec(self) -> (r: Vec<T>)
        ensures
            r@ == self@,
    {
        self.data
    }
}

impl<T> Default for CVec<T> {
    fn default() -> (r: Self)
        ensures
            r@ == Seq::<T>::empty(),
    {
        Self::new()
    }
}

impl<T> From<Vec<T>> for CVec<T> {
    fn from(v: Vec<T>) -> (r: Self)
        ensures
            r@ == v@,
    {
        CVec { data: v }
    }
}

impl<T> vstd::std_specs::convert::FromSpecImpl<Vec<T>> for CVec<T> {
    open spec fn obeys_from_spec() -> bool {
        true
    }

    closed spec fn from_spec(v: Vec<T>) -> Self {
        CVec { data: v }
    }
}

} // verus!
