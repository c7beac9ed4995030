//! Holding a Rust closure so that its address can serve as the context of a
//! C callback.

use vstd::prelude::*;

verus! {

/// Keeps a closure in a box, so that it stays at one address while C code
/// holds a pointer to it.
pub struct CallbackTrampoline<F> {
    closure: Box<F>,
}

impl<F> CallbackTrampoline<F> where F: FnMut() + 'static {
    /// The closure that is kept.
    pub closed spec fn closure_view(&self) -> F {
        *self.closure
    }

    /// Create a new trampoline wrapping the given closure.
    pub fn new(f: F) -> (r: Self)
        ensures
            r.closure_view() == f,
    {
        CallbackTrampoline { closure: Box::new(f) }
    }

    /// The kept closure, in place; its address is the callback's context.
    pub fn closure_mut(&mut self) -> (r: &mut F)
        ensures
            *r == old(self).closure_view(),
            final(self).closure_view() == *final(r),
    {
        &mut *self.closure
    }
}

} // verus!
