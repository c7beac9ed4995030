//! Opaque handles and the tables that resolve them, so that C callers hold
//! integer IDs rather than pointers.

use std::collections::HashMap;
use std::marker::PhantomData;

use vstd::prelude::*;

verus! {

broadcast use vstd::std_specs::hash::group_hash_axioms;

/// A type-safe opaque handle: an integer ID tagged with the type it refers to.
#[derive(Debug, PartialEq, Eq, Hash)]
pub struct OpaqueHandle<T> {
    id: u64,
    _marker: PhantomData<T>,
}

impl<T> View for OpaqueHandle<T> {
    type V = u64;

    closed spec fn view(&self) -> u64 {
        self.id
    }
}

impl<T> Clone for OpaqueHandle<T> {
    fn clone(&self) -> (r: Self)
        ensures
            r@ == self@,
    {
        OpaqueHandle { id: self.id, _marker: PhantomData }
    }
}

impl<T> Copy for OpaqueHandle<T> {

}

impl<T> OpaqueHandle<T> {
    /// Create a handle from a specific ID (for reconstruction from FFI).
    pub fn from_id(id: u64) -> (r: Self)
        ensures
            r@ == id,
    {
        OpaqueHandle { id, _marker: PhantomData }
    }

    /// Get the handle's ID.
    pub fn id(&self) -> (r: u64)
        ensures
            r == self@,
    {
        self.id
    }

    /// Check if this is a valid (non-zero) handle.
    pub fn is_valid(&self) -> (r: bool)
        ensures
            r == (self@ != 0),
    {
        self.id != 0
    }
}

/// The ID that follows `id`, wrapping from `u64::MAX` to zero.
pub open spec fn next_handle_id(id: u64) -> u64 {
    if id == u64::MAX {
        0
    } else {
        (id + 1) as u64
    }
}

/// The next ID after making sure `id` is not reissued.
pub open spec fn advanced_id(next: u64, id: u64) -> u64 {
    if id >= next && id < u64::MAX {
        (id + 1) as u64
    } else {
        next
    }
}

/// Issues handle IDs in increasing order, starting at 1.
pub struct HandleIdGenerator {
    next: u64,
}

impl HandleIdGenerator {
    /// The ID the next handle will get.
    pub closed spec fn next_id(&self) -> u64 {
        self.next
    }

    pub fn new() -> (r: Self)
        ensures
            r.next_id() == 1,
    {
        HandleIdGenerator { next: 1 }
    }

    /// A generator whose next handle gets `next`.
    pub fn starting_at(next: u64) -> (r: Self)
        ensures
            r.next_id() == next,
    {
        HandleIdGenerator { next }
    }

    /// Make sure no later handle reuses `id`: move the next ID past it when
    /// it is not already past (and `id` is below `u64::MAX`).
    pub fn advance_past(&mut self, id: u64)
        ensures
            final(self).next_id() == advanced_id(old(self).next_id(), id),
        no_unwind
    {
        if id >= self.next && id < u64::MAX {
            self.next = id + 1;
        }
    }

    /// The ID the next handle will get.
    pub fn peek_next(&self) -> (r: u64)
        ensures
            r == self.next_id(),
    {
        self.next
    }

    /// Create a new handle with the next ID.
    pub fn next_handle<T>(&mut self) -> (h: OpaqueHandle<T>)
        ensures
            h@ == old(self).next_id(),
            final(self).next_id() == next_handle_id(old(self).next_id()),
        no_unwind
    {
        let id = self.next;
        self.next = if id == u64::MAX {
            0
        } else {
            id + 1
        };
        OpaqueHandle { id, _marker: PhantomData }
    }
}

/// Until the IDs run out, a generator never hands out the same ID twice and
/// never hands out the invalid ID 0: after a handle with ID `a`, all later
/// ones are greater.
pub proof fn law_handle_ids_increase(id: u64)
    requires
        0 < id < u64::MAX,
    ensures
        next_handle_id(id) > id,
        next_handle_id(id) != 0,
{
}

/// Calls `std::collections::HashMap::get_mut`. Trusted, not proved: when
/// `id` is a key, the result is a mutable reference to its value, and the
/// map afterwards maps `id` to whatever was written through it, all other
/// entries unchanged; when `id` is not a key, the result is `None` and the
/// map is unchanged. It does not panic.
#[verifier::external_body]
fn entry_mut<'a, T>(entries: &'a mut HashMap<u64, T>, id: u64) -> (r: Option<&'a mut T>)
    ensures
        match r {
            Some(v) => {
                &&& old(entries)@.contains_key(id)
                &&& *v == old(entries)@[id]
                &&& final(entries)@ == old(entries)@.insert(id, *final(v))
            },
            None => {
                &&& !old(entries)@.contains_key(id)
                &&& final(entries)@ == old(entries)@
            },
        },
    no_unwind
{
    entries.get_mut(&id)
}

/// A handle table that maps opaque handles to their underlying data.
pub struct HandleTable<T> {
    entries: HashMap<u64, T>,
    ids: HandleIdGenerator,
    ids_wrapped: Ghost<bool>,
}

impl<T> View for HandleTable<T> {
    type V = Map<u64, T>;

    closed spec fn view(&self) -> Map<u64, T> {
        self.entries@
    }
}

impl<T> HandleTable<T> {
    /// The table holds finitely many entries, and until its ID counter has
    /// wrapped, every ID in it is valid and below the next one to be issued.
    #[verifier::type_invariant]
    spec fn table_invariant(self) -> bool {
        &&& self.entries@.dom().finite()
        &&& !self.ids_wrapped@ ==> {
            &&& self.ids.next_id() > 0
            &&& forall|k: u64|
                #[trigger] self.entries@.contains_key(k) ==> 0 < k < self.ids.next_id()
        }
    }

    /// The ID the next inserted value will get.
    pub closed spec fn next_id(&self) -> u64 {
        self.ids.next_id()
    }

    /// Fresh IDs are no longer guaranteed: the ID counter has gone past
    /// `u64::MAX` and started again at zero (which takes 2^64 - 1 inserts), or
    /// the ID 0 or `u64::MAX` was inserted from outside.
    pub closed spec fn ids_exhausted(&self) -> bool {
        self.ids_wrapped@
    }

    /// The next ID to be issued is valid, and every ID in the table is valid
    /// and below it, so no later insert can reuse it.
    pub open spec fn ids_fresh(&self) -> bool {
        &&& self.next_id() > 0
        &&& forall|k: u64| #[trigger] self@.contains_key(k) ==> 0 < k < self.next_id()
    }

    /// What every table satisfies: finitely many entries, and fresh IDs until
    /// the counter is exhausted.
    pub open spec fn table_facts(&self) -> bool {
        &&& self@.dom().finite()
        &&& !self.ids_exhausted() ==> self.ids_fresh()
    }

    /// Create a new empty handle table.
    pub fn new() -> (r: Self)
        ensures
            r@ == Map::<u64, T>::empty(),
            r.next_id() == 1,
            !r.ids_exhausted(),
            r.table_facts(),
    {
        HandleTable {
            entries: HashMap::new(),
            ids: HandleIdGenerator::new(),
            ids_wrapped: Ghost(false),
        }
    }

    /// Insert a value and return an opaque handle for it. Until the ID
    /// counter is exhausted, the handle is valid and new to the table, so the
    /// table grows by one entry.
    pub fn insert(&mut self, value: T) -> (h: OpaqueHandle<T>)
        ensures
            h@ == old(self).next_id(),
            final(self)@ == old(self)@.insert(h@, value),
            final(self).next_id() == next_handle_id(old(self).next_id()),
            final(self).ids_exhausted() == (old(self).ids_exhausted() || old(self).next_id()
                == u64::MAX),
            old(self).table_facts(),
            final(self).table_facts(),
            !old(self).ids_exhausted() && old(self).next_id() < u64::MAX ==> {
                &&& !old(self)@.contains_key(h@)
                &&& h@ != 0
                &&& final(self)@.len() == old(self)@.len() + 1
            },
    {
        proof {
            use_type_invariant(&*self);
        }
        let ghost before = self@;
        if self.ids.peek_next() == u64::MAX {
            self.ids_wrapped = Ghost(true);
        }
        let handle: OpaqueHandle<T> = self.ids.next_handle();
        let mut entries = HashMap::new();
        std::mem::swap(&mut entries, &mut self.entries);
        entries.insert(handle.id(), value);
        self.entries = entries;
        proof {
            use_type_invariant(&*self);
            if !old(self).ids_exhausted() && old(self).next_id() < u64::MAX {
                assert(!before.contains_key(handle@));
            }
        }
        handle
    }

    /// Insert a value under a handle issued elsewhere (by a generator shared
    /// between tables, or a process-wide one), returning the value it
    /// replaces. The table's own counter moves past the handle's ID, so its
    /// later inserts never reuse it.
    pub fn insert_with_handle(&mut self, handle: OpaqueHandle<T>, value: T) -> (r: Option<T>)
        ensures
            final(self)@ == old(self)@.insert(handle@, value),
            final(self).next_id() == advanced_id(old(self).next_id(), handle@),
            final(self).ids_exhausted() == (old(self).ids_exhausted() || handle@ == 0 || handle@
                == u64::MAX),
            old(self).table_facts(),
            final(self).table_facts(),
            match r {
                Some(v) => {
                    &&& old(self)@.contains_key(handle@)
                    &&& v == old(self)@[handle@]
                    &&& final(self)@.len() == old(self)@.len()
                },
                None => {
                    &&& !old(self)@.contains_key(handle@)
                    &&& final(self)@.len() == old(self)@.len() + 1
                },
            },
    {
        proof {
            use_type_invariant(&*self);
        }
        let id = handle.id();
        if id == 0 || id == u64::MAX {
            self.ids_wrapped = Ghost(true);
        }
        self.ids.advance_past(id);
        let mut entries = HashMap::new();
        std::mem::swap(&mut entries, &mut self.entries);
        let r = entries.insert(id, value);
        self.entries = entries;
        proof {
            use_type_invariant(&*self);
        }
        r
    }

    /// Insert a value under the next handle of a generator that several
    /// tables share, so that no two of them hand out the same ID.
    pub fn insert_from(&mut self, ids: &mut HandleIdGenerator, value: T) -> (h: OpaqueHandle<T>)
        ensures
            h@ == old(ids).next_id(),
            final(ids).next_id() == next_handle_id(old(ids).next_id()),
            final(self)@ == old(self)@.insert(h@, value),
            final(self).next_id() == advanced_id(old(self).next_id(), h@),
            final(self).ids_exhausted() == (old(self).ids_exhausted() || h@ == 0 || h@
                == u64::MAX),
            final(self).table_facts(),
    {
        let h: OpaqueHandle<T> = ids.next_handle();
        let _ = self.insert_with_handle(h, value);
        h
    }

    /// Get a reference to the value behind a handle.
    pub fn get(&self, handle: OpaqueHandle<T>) -> (r: Option<&T>)
        ensures
            match r {
                Some(v) => self@.contains_key(handle@) && *v == self@[handle@],
                None => !self@.contains_key(handle@),
            },
    {
        self.entries.get(&handle.id())
    }

    /// Get a mutable reference to the value behind a handle.
    pub fn get_mut(&mut self, handle: OpaqueHandle<T>) -> (r: Option<&mut T>)
        ensures
            final(self).next_id() == old(self).next_id(),
            final(self).ids_exhausted() == old(self).ids_exhausted(),
            match r {
                Some(v) => {
                    &&& old(self)@.contains_key(handle@)
                    &&& *v == old(self)@[handle@]
                    &&& final(self)@ == old(self)@.insert(handle@, *final(v))
                },
                None => {
                    &&& !old(self)@.contains_key(handle@)
                    &&& final(self)@ == old(self)@
                },
            },
    {
        proof {
            use_type_invariant(&*self);
        }
        entry_mut(&mut self.entries, handle.id())
    }

    /// Remove and return the value behind a handle (drop across FFI).
    pub fn remove(&mut self, handle: OpaqueHandle<T>) -> (r: Option<T>)
        ensures
            final(self)@ == old(self)@.remove(handle@),
            final(self).next_id() == old(self).next_id(),
            final(self).ids_exhausted() == old(self).ids_exhausted(),
            old(self).table_facts(),
            final(self).table_facts(),
            match r {
                Some(v) => {
                    &&& old(self)@.contains_key(handle@)
                    &&& v == old(self)@[handle@]
                    &&& final(self)@.len() == old(self)@.len() - 1
                },
                None => {
                    &&& !old(self)@.contains_key(handle@)
                    &&& final(self)@ == old(self)@
                },
            },
    {
        proof {
            use_type_invariant(&*self);
        }
        let mut entries = HashMap::new();
        std::mem::swap(&mut entries, &mut self.entries);
        let r = entries.remove(&handle.id());
        self.entries = entries;
        proof {
            use_type_invariant(&*self);
            if r.is_none() {
                assert(self@ =~= old(self)@);
            }
        }
        r
    }

    /// Check if a handle exists.
    pub fn contains(&self, handle: OpaqueHandle<T>) -> (r: bool)
        ensures
            r == self@.contains_key(handle@),
    {
        self.entries.contains_key(&handle.id())
    }

    /// Number of active handles.
    pub fn len(&self) -> (r: usize)
        ensures
            r == self@.len(),
            self.table_facts(),
    {
        proof {
            use_type_invariant(self);
        }
        self.entries.len()
    }

    /// Check if empty.
    pub fn is_empty(&self) -> (r: bool)
        ensures
            r == self@.is_empty(),
            r == (self@.len() == 0),
    {
        proof {
            use_type_invariant(self);
        }
        self.entries.is_empty()
    }
}

/// A read after an insert gives back the inserted value, and leaves every
/// other handle resolving as before (`insert` and `get` state their effect on
/// the table's map this way).
pub proof fn law_get_after_insert<T>(m: Map<u64, T>, id: u64, value: T, other: u64)
    ensures
        m.insert(id, value).contains_key(id),
        m.insert(id, value)[id] == value,
        other != id ==> m.insert(id, value).contains_key(other) == m.contains_key(other),
        other != id && m.contains_key(other) ==> m.insert(id, value)[other] == m[other],
        m.dom().finite() && !m.contains_key(id) ==> m.insert(id, value).len() == m.len() + 1,
{
}

/// After a remove the handle no longer resolves, and every other handle
/// resolves as before.
pub proof fn law_get_after_remove<T>(m: Map<u64, T>, id: u64, other: u64)
    ensures
        !m.remove(id).contains_key(id),
        other != id ==> m.remove(id).contains_key(other) == m.contains_key(other),
        other != id && m.contains_key(other) ==> m.remove(id)[other] == m[other],
        m.dom().finite() && m.contains_key(id) ==> m.remove(id).len() == m.len() - 1,
        !m.contains_key(id) ==> m.remove(id) == m,
{
    if !m.contains_key(id) {
        assert(m.remove(id) =~= m);
    }
}

impl<T> Default for HandleTable<T> {
    fn default() -> (r: Self)
        ensures
            r@ == Map::<u64, T>::empty(),
            r.next_id() == 1,
            !r.ids_exhausted(),
            r.table_facts(),
    {
        Self::new()
    }
}

} // verus!
