//! A flag, a source of message ids and a store of values kept by message id.

use std::collections::HashMap;
use std::sync::atomic::AtomicBool;
use std::sync::atomic::Ordering;
use vstd::prelude::*;
use vstd::std_specs::hash::*;

verus! {

broadcast use group_hash_axioms;

/// A flag that any holder of a shared reference can raise, once and for all.
///
/// Another thread may raise the flag at any moment, so what the flag holds
/// when it is read is not known beforehand, and `raise` and `is_raised`
/// promise nothing about it. What `raise` makes of the value it found is
/// stated by `is_first_raise`.
pub struct AtomicFlag(AtomicBool);

impl Default for AtomicFlag {
    /// A flag that is not raised.
    fn default() -> (flag: Self) {
        AtomicFlag(AtomicBool::new(false))
    }
}

impl AtomicFlag {
    /// Raises the flag. Returns `true` to the one caller that raised it and
    /// `false` to those that find it raised.
    pub fn raise(&self) -> (raised_now: bool) {
        let was_raised = self.0.swap(true, Ordering::SeqCst);
        Self::is_first_raise(was_raised)
    }

    /// Whether the flag was raised when asked.
    pub fn is_raised(&self) -> (raised: bool) {
        self.0.load(Ordering::SeqCst)
    }

    /// What `raise` answers when it found the flag as `was_raised` says: the
    /// call is the one that raised the flag exactly if the flag was not
    /// raised before.
    pub fn is_first_raise(was_raised: bool) -> (raised_now: bool)
        ensures
            raised_now == !was_raised,
    {
        !was_raised
    }
}

/// Hands out message ids, counting up from 0.
pub struct IdGenerator(u32);

impl Default for IdGenerator {
    /// A generator that starts at 0.
    fn default() -> (generator: Self)
        ensures
            generator.next_id() == 0,
    {
        IdGenerator(0)
    }
}

impl IdGenerator {
    /// The id that `next` hands out next.
    pub closed spec fn next_id(&self) -> u32 {
        self.0
    }

    /// Every id but the last one has been handed out.
    pub fn is_exhausted(&self) -> (exhausted: bool)
        ensures
            exhausted == (self.next_id() == u32::MAX),
    {
        self.0 == u32::MAX
    }

    /// Hands out an id. Every id is handed out once: the next one is larger
    /// by one.
    pub fn next(&mut self) -> (id: u32)
        requires
            old(self).next_id() < u32::MAX,
        ensures
            id == old(self).next_id(),
            final(self).next_id() == id + 1,
    {
        let next = self.0;
        self.0 = self.0 + 1;
        next
    }
}

/// A store keyed by id.
pub struct RcIdStore<T> {
    entries: HashMap<u32, T>,
}

impl<T> View for RcIdStore<T> {
    type V = Map<u32, T>;

    /// The values in the store, by id.
    closed spec fn view(&self) -> Map<u32, T> {
        self.entries@
    }
}

impl<T> Default for RcIdStore<T> {
    fn default() -> (store: Self)
        ensures
            store@ == Map::<u32, T>::empty(),
    {
        RcIdStore { entries: HashMap::new() }
    }
}

impl<T> RcIdStore<T> {
    /// An empty store.
    pub fn new() -> (store: Self)
        ensures
            store@ == Map::<u32, T>::empty(),
    {
        RcIdStore { entries: HashMap::new() }
    }

    /// Keeps `data` under `message_id`, in place of what was kept there.
    pub fn store(&mut self, message_id: u32, data: T)
        ensures
            final(self)@ == old(self)@.insert(message_id, data),
    {
        self.entries.insert(message_id, data);
    }

    /// Takes out what is kept under `message_id`, if anything.
    pub fn take(&mut self, message_id: u32) -> (data: Option<T>)
        ensures
            final(self)@ == old(self)@.remove(message_id),
            data == if old(self)@.contains_key(message_id) {
                Some(old(self)@[message_id])
            } else {
                None
            },
    {
        self.entries.remove(&message_id)
    }

    /// Takes out everything and leaves the store empty.
    pub fn take_all(&mut self) -> (all: HashMap<u32, T>)
        ensures
            all@ == old(self)@,
            final(self)@ == Map::<u32, T>::empty(),
    {
        let mut all: HashMap<u32, T> = HashMap::new();
        std::mem::swap(&mut self.entries, &mut all);
        all
    }
}

impl<T: Clone> RcIdStore<T> {
    /// A clone of what is kept under `message_id`, if anything.
    pub fn get_cloned(&self, message_id: u32) -> (data: Option<T>)
        ensures
            data is Some <==> self@.contains_key(message_id),
            data matches Some(value) ==> cloned(self@[message_id], value),
    {
        match self.entries.get(&message_id) {
            Some(value) => Some(value.clone()),
            None => None,
        }
    }
}

} // verus!
