//! A table that is dropped whole when it grows too large, rather than tracking the age of each
//! entry.
use vstd::prelude::*;

use crate::table::{Key, Table};

verus! {

/// What a cache of a limit holds once it was told a value.
pub open spec fn remembered<K, V>(held: Map<K, V>, limit: nat, key: K, value: V) -> Map<K, V> {
    if held.dom().len() >= limit {
        Map::empty().insert(key, value)
    } else {
        held.insert(key, value)
    }
}

pub struct Cache<K: Key, V> {
    table: Table<K, V>,
    limit: usize,
}

impl<K: Key, V> View for Cache<K, V> {
    type V = Map<K::Of, V>;

    closed spec fn view(&self) -> Map<K::Of, V> {
        self.table@
    }
}

impl<K: Key, V> Cache<K, V> {
    /// How many entries there may be before all are dropped.
    pub closed spec fn limit(&self) -> nat {
        self.limit as nat
    }

    /// A cache without entries.
    pub fn new(limit: usize) -> (cache: Self)
        ensures
            cache@ == Map::<K::Of, V>::empty(),
            cache.limit() == limit,
    {
        Cache { table: Table::new(), limit }
    }

    /// What is remembered for a key.
    pub fn get(&self, key: &K) -> (value: Option<&V>)
        ensures
            match value {
                Some(v) => self@.contains_pair(key.of(), *v),
                None => !self@.dom().contains(key.of()),
            },
    {
        self.table.get(key)
    }

    /// Remembers a value for a key, in place of everything where there is no more room.
    pub fn remember(&mut self, key: K, value: V)
        ensures
            final(self)@ == remembered(old(self)@, old(self).limit(), key.of(), value),
            final(self).limit() == old(self).limit(),
    {
        if self.table.len() >= self.limit {
            self.table = Table::new();
        }
        self.table.insert(key, value);
    }

    /// Forgets everything.
    pub fn clear(&mut self)
        ensures
            final(self)@ == Map::<K::Of, V>::empty(),
            final(self).limit() == old(self).limit(),
    {
        self.table = Table::new();
    }

    /// The number of entries.
    pub fn len(&self) -> (n: usize)
        ensures
            self@.dom().finite(),
            n == self@.dom().len(),
    {
        self.table.len()
    }
}

/// A cache holds what it was last told of a key, and never more than its limit.
pub proof fn a_cache_is_bounded<K, V>(held: Map<K, V>, limit: nat, key: K, value: V)
    requires
        held.dom().finite(),
        limit >= 1,
        held.dom().len() <= limit,
    ensures
        remembered(held, limit, key, value).contains_pair(key, value),
        remembered(held, limit, key, value).dom().finite(),
        remembered(held, limit, key, value).dom().len() <= limit,
{
    let none: Map<K, V> = Map::empty();
    assert(none.insert(key, value).dom() =~= none.dom().insert(key));
    assert(held.insert(key, value).dom() =~= held.dom().insert(key));
}

} // verus!
