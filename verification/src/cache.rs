//! The Configuration Cache: a configure-once memoization keyed by language
//! identifier.  Identifiers are small integers picked by the caller's
//! language registry.  The cache never evicts: a language is configured at
//! most once per renderer lifetime, and a failed build leaves no entry, so
//! the caller may retry.

use vstd::prelude::*;

verus! {

/// A lazily populated table from language identifier to configuration.
pub struct ConfigCache<C> {
    pub slots: Vec<Option<C>>,
}

impl<C> ConfigCache<C> {
    /// The entry for identifier `id`: `None` while nothing was stored there.
    pub open spec fn entry(self, id: usize) -> Option<C> {
        if id < self.slots@.len() {
            self.slots@[id as int]
        } else {
            None
        }
    }

    /// Whether identifier `id` holds a configuration.
    pub open spec fn cached(self, id: usize) -> bool {
        self.entry(id) is Some
    }

    /// An empty cache.
    pub fn new() -> (r: Self)
        ensures
            forall|j: usize| !r.cached(j),
    {
        ConfigCache { slots: Vec::new() }
    }

    /// The configuration stored for `id`, if any.
    pub fn lookup(&self, id: usize) -> (r: Option<&C>)
        ensures
            match r {
                Some(c) => self.entry(id) == Some(*c),
                None => !self.cached(id),
            },
    {
        if id < self.slots.len() {
            match &self.slots[id] {
                Some(c) => Some(c),
                None => None,
            }
        } else {
            None
        }
    }

    /// Whether `id` already holds a configuration.
    pub fn contains(&self, id: usize) -> (r: bool)
        ensures
            r == self.cached(id),
    {
        match self.lookup(id) {
            Some(_) => true,
            None => false,
        }
    }

    /// Store the configuration for `id`; every other identifier keeps its
    /// entry.
    pub fn store(&mut self, id: usize, c: C)
        ensures
            final(self).cached(id),
            final(self).entry(id) == Some(c),
            forall|j: usize| j != id ==> final(self).entry(j) == old(self).entry(j),
    {
        while self.slots.len() <= id
            invariant
                forall|j: usize| self.entry(j) == old(self).entry(j),
            decreases id + 1 - self.slots@.len(),
        {
            let ghost pre = *self;
            self.slots.push(None);
            proof {
                assert(forall|j: usize| self.entry(j) == pre.entry(j));
            }
        }
        self.slots.set(id, Some(c));
    }
}

} // verus!
