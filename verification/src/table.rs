//! A map kept as a list of entries, each key listed once.
use vstd::prelude::*;

verus! {

/// What a table can be keyed by: a value with a model, and a test that two values have the same
/// model.
pub trait Key: Sized {
    type Of;

    /// What the key stands for.
    spec fn of(&self) -> Self::Of;

    /// Whether two keys stand for the same thing.
    fn same(&self, other: &Self) -> (r: bool)
        ensures
            r == (self.of() == other.of()),
    ;
}

impl Key for String {
    type Of = Seq<char>;

    open spec fn of(&self) -> Seq<char> {
        self@
    }

    fn same(&self, other: &Self) -> (r: bool) {
        *self == *other
    }
}

impl Key for u64 {
    type Of = u64;

    open spec fn of(&self) -> u64 {
        *self
    }

    fn same(&self, other: &Self) -> (r: bool) {
        *self == *other
    }
}

impl Key for u32 {
    type Of = u32;

    open spec fn of(&self) -> u32 {
        *self
    }

    fn same(&self, other: &Self) -> (r: bool) {
        *self == *other
    }
}

/// The entries, in the order their keys first came.
pub struct Table<K: Key, V> {
    entries: Vec<(K, V)>,
}

spec fn keys_differ<K: Key, V>(entries: Seq<(K, V)>) -> bool {
    forall|i: int, j: int|
        0 <= i < j < entries.len() ==> (#[trigger] entries[i]).0.of() != (#[trigger] entries[j]).0.of()
}

spec fn keyed_at<K: Key, V>(entries: Seq<(K, V)>, key: K::Of, i: int) -> bool {
    0 <= i < entries.len() && entries[i].0.of() == key
}

spec fn map_of<K: Key, V>(entries: Seq<(K, V)>) -> Map<K::Of, V> {
    Map::new(
        |key: K::Of| exists|i: int| keyed_at(entries, key, i),
        |key: K::Of| entries[choose|i: int| keyed_at(entries, key, i)].1,
    )
}

proof fn entry_is_mapped<K: Key, V>(entries: Seq<(K, V)>, i: int)
    requires
        keys_differ(entries),
        0 <= i < entries.len(),
    ensures
        map_of(entries).contains_pair(entries[i].0.of(), entries[i].1),
{
    let key = entries[i].0.of();
    assert(keyed_at(entries, key, i));
    let j = choose|j: int| keyed_at(entries, key, j);
    assert(keyed_at(entries, key, j));
    assert(i == j);
}

proof fn keys_are_counted<K: Key, V>(entries: Seq<(K, V)>)
    requires
        keys_differ(entries),
    ensures
        map_of(entries).dom().finite(),
        map_of(entries).dom().len() == entries.len(),
    decreases entries.len(),
{
    let keys = map_of(entries).dom();
    if entries.len() == 0 {
        assert(keys =~= Set::empty());
    } else {
        let fewer = entries.drop_last();
        keys_are_counted(fewer);
        let last = entries.last().0.of();
        assert forall|k: K::Of| #[trigger] keys.contains(k) <==> map_of(fewer).dom().insert(
            last,
        ).contains(k) by {
            if keys.contains(k) {
                let i = choose|i: int| keyed_at(entries, k, i);
                assert(keyed_at(entries, k, i));
                if i < fewer.len() {
                    assert(keyed_at(fewer, k, i));
                }
            }
            if map_of(fewer).dom().contains(k) {
                let i = choose|i: int| keyed_at(fewer, k, i);
                assert(keyed_at(fewer, k, i));
                assert(keyed_at(entries, k, i));
            }
            assert(keyed_at(entries, last, entries.len() - 1));
        }
        assert(keys =~= map_of(fewer).dom().insert(last));
        if map_of(fewer).dom().contains(last) {
            let i = choose|i: int| keyed_at(fewer, last, i);
            assert(keyed_at(fewer, last, i));
            assert(entries[i].0.of() != entries[entries.len() - 1].0.of());
        }
    }
}

impl<K: Key, V> View for Table<K, V> {
    type V = Map<K::Of, V>;

    closed spec fn view(&self) -> Map<K::Of, V> {
        map_of(self.entries@)
    }
}

impl<K: Key, V> Table<K, V> {
    #[verifier::type_invariant]
    spec fn each_key_once(self) -> bool {
        keys_differ(self.entries@)
    }

    /// A table without entries.
    pub fn new() -> (table: Self)
        ensures
            table@ == Map::<K::Of, V>::empty(),
    {
        let table = Table { entries: Vec::new() };
        assert(table@ =~= Map::<K::Of, V>::empty());
        table
    }

    fn position(&self, key: &K) -> (at: Option<usize>)
        ensures
            match at {
                Some(i) => keyed_at(self.entries@, key.of(), i as int) && self@.contains_pair(
                    key.of(),
                    self.entries@[i as int].1,
                ),
                None => !self@.dom().contains(key.of()),
            },
    {
        proof {
            use_type_invariant(self);
        }
        let mut i: usize = 0;
        while i < self.entries.len()
            invariant
                i <= self.entries@.len(),
                keys_differ(self.entries@),
                forall|j: int| 0 <= j < i ==> !#[trigger] keyed_at(self.entries@, key.of(), j),
            decreases self.entries.len() - i,
        {
            if self.entries[i].0.same(key) {
                proof {
                    entry_is_mapped(self.entries@, i as int);
                }
                return Some(i);
            }
            i += 1;
        }
        assert(forall|j: int| !#[trigger] keyed_at(self.entries@, key.of(), j));
        None
    }

    /// What the table holds for a key.
    pub fn get(&self, key: &K) -> (value: Option<&V>)
        ensures
            match value {
                Some(v) => self@.contains_pair(key.of(), *v),
                None => !self@.dom().contains(key.of()),
            },
    {
        match self.position(key) {
            Some(i) => Some(&self.entries[i].1),
            None => None,
        }
    }

    /// Whether the table holds something for a key.
    pub fn contains(&self, key: &K) -> (held: bool)
        ensures
            held == self@.dom().contains(key.of()),
    {
        self.position(key).is_some()
    }

    /// Holds a value for a key, in place of the one it held before, if any.
    pub fn insert(&mut self, key: K, value: V)
        ensures
            final(self)@ == old(self)@.insert(key.of(), value),
    {
        proof {
            use_type_invariant(&*self);
        }
        let at = self.position(&key);
        let ghost before = self.entries@;
        let mut entries: Vec<(K, V)> = Vec::new();
        std::mem::swap(&mut entries, &mut self.entries);
        let ghost which: int = match at {
            Some(i) => i as int,
            None => entries@.len() as int,
        };
        match at {
            Some(i) => {
                entries.set(i, (key, value));
            },
            None => {
                entries.push((key, value));
            },
        }
        proof {
            let after = entries@;
            if at is None {
                assert forall|i: int| 0 <= i < before.len() implies before[i].0.of() != key.of() by {
                    assert(!keyed_at(before, key.of(), i)) by {
                        if keyed_at(before, key.of(), i) {
                            assert(map_of(before).dom().contains(key.of()));
                        }
                    }
                }
            }
            assert(keys_differ(after));
            assert forall|k: K::Of| #[trigger] map_of(after).dom().contains(k) <==> map_of(
                before,
            ).insert(key.of(), value).dom().contains(k) by {
                if map_of(after).dom().contains(k) {
                    let i = choose|i: int| keyed_at(after, k, i);
                    assert(keyed_at(after, k, i));
                    if k != key.of() {
                        assert(keyed_at(before, k, i));
                    }
                }
                if map_of(before).dom().contains(k) {
                    let i = choose|i: int| keyed_at(before, k, i);
                    assert(keyed_at(before, k, i));
                    assert(keyed_at(after, k, i));
                }
                assert(keyed_at(after, key.of(), which));
            }
            assert forall|k: K::Of| #[trigger] map_of(after).dom().contains(k) implies map_of(
                after,
            )[k] == map_of(before).insert(key.of(), value)[k] by {
                let i = choose|i: int| keyed_at(after, k, i);
                assert(keyed_at(after, k, i));
                entry_is_mapped(after, i);
                if k == key.of() {
                    assert(keyed_at(after, k, which));
                } else {
                    assert(keyed_at(before, k, i));
                    entry_is_mapped(before, i);
                }
            }
            assert(map_of(after) =~= map_of(before).insert(key.of(), value));
        }
        self.entries = entries;
    }

    /// Drops what the table holds for a key, if anything.
    pub fn remove(&mut self, key: &K)
        ensures
            final(self)@ == old(self)@.remove(key.of()),
    {
        proof {
            use_type_invariant(&*self);
        }
        let at = self.position(key);
        let ghost before = self.entries@;
        match at {
            Some(gone) => {
                let mut entries: Vec<(K, V)> = Vec::new();
                std::mem::swap(&mut entries, &mut self.entries);
                entries.remove(gone);
                proof {
                    let after = entries@;
                    assert(keys_differ(after));
                    assert forall|k: K::Of| #[trigger] map_of(after).dom().contains(k)
                        <==> map_of(before).remove(key.of()).dom().contains(k) by {
                        if map_of(after).dom().contains(k) {
                            let i = choose|i: int| keyed_at(after, k, i);
                            assert(keyed_at(after, k, i));
                            let j = if i < gone { i } else { i + 1 };
                            assert(keyed_at(before, k, j));
                            assert(before[j].0.of() != before[gone as int].0.of());
                        }
                        if map_of(before).dom().contains(k) && k != key.of() {
                            let i = choose|i: int| keyed_at(before, k, i);
                            assert(keyed_at(before, k, i));
                            let j = if i < gone { i } else { i - 1 };
                            assert(keyed_at(after, k, j));
                        }
                    }
                    assert forall|k: K::Of| #[trigger] map_of(after).dom().contains(k) implies map_of(
                        after,
                    )[k] == map_of(before)[k] by {
                        let i = choose|i: int| keyed_at(after, k, i);
                        assert(keyed_at(after, k, i));
                        entry_is_mapped(after, i);
                        let j = if i < gone { i } else { i + 1 };
                        assert(keyed_at(before, k, j));
                        entry_is_mapped(before, j);
                    }
                    assert(map_of(after) =~= map_of(before).remove(key.of()));
                }
                self.entries = entries;
            },
            None => {
                assert(self@ =~= self@.remove(key.of()));
            },
        }
    }

    /// One of the values, where there is one.
    pub fn any(&self) -> (value: Option<&V>)
        ensures
            match value {
                Some(v) => self@.contains_value(*v),
                None => self@ == Map::<K::Of, V>::empty(),
            },
    {
        proof {
            use_type_invariant(self);
        }
        if self.entries.len() > 0 {
            proof {
                entry_is_mapped(self.entries@, 0);
            }
            Some(&self.entries[0].1)
        } else {
            assert(self@ =~= Map::<K::Of, V>::empty());
            None
        }
    }

    /// The number of entries.
    pub fn len(&self) -> (n: usize)
        ensures
            self@.dom().finite(),
            n == self@.dom().len(),
    {
        proof {
            use_type_invariant(self);
            keys_are_counted(self.entries@);
        }
        self.entries.len()
    }
}

} // verus!
