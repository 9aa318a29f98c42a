//! The shared state store: a mapping from string key to a 32-bit counter,
//! shared by every connection handler and by the background monitor.
//!
//! [`CounterMap`] is the table itself, a plain value whose operations are
//! verified against its mathematical map. [`State`] is the cloneable handle
//! that the process hands to each task: it wraps one `CounterMap` in a
//! reader-writer lock, so `get`, `incr` and `seed` are atomic with respect
//! to one another. A counter increment on a missing key initializes the
//! counter to one; at `u32::MAX` the counter saturates. The store is
//! ephemeral: nothing survives the process.

use vstd::prelude::*;
use vstd::rwlock::{RwLock, RwLockPredicate};
use std::sync::Arc;

verus! {

/// An in-memory table from string key to 32-bit counter.
pub struct CounterMap {
    entries: Vec<(String, u32)>,
}

/// The map described by a sequence of key/counter pairs; of two pairs with
/// one key the later wins, though a well-formed table never holds a key twice.
pub open spec fn entries_as_map(s: Seq<(String, u32)>) -> Map<Seq<char>, u32>
    decreases s.len(),
{
    if s.len() == 0 {
        Map::empty()
    } else {
        entries_as_map(s.drop_last()).insert(s.last().0@, s.last().1)
    }
}

/// Pairwise-distinct keys.
pub open spec fn keys_distinct(s: Seq<(String, u32)>) -> bool {
    forall|i: int, j: int| 0 <= i < j < s.len() ==> s[i].0@ != s[j].0@
}

/// A key of `s[i]` is in the map, bound to that pair's counter, as long as
/// no later pair shadows it.
proof fn lemma_entries_index(s: Seq<(String, u32)>, i: int)
    requires
        keys_distinct(s),
        0 <= i < s.len(),
    ensures
        entries_as_map(s).contains_key(s[i].0@),
        entries_as_map(s)[s[i].0@] == s[i].1,
    decreases s.len(),
{
    if i < s.len() - 1 {
        assert(s.drop_last()[i] == s[i]);
        lemma_entries_index(s.drop_last(), i);
    }
}

/// The map's domain holds exactly the keys that occur in the sequence.
proof fn lemma_entries_domain(s: Seq<(String, u32)>, k: Seq<char>)
    ensures
        entries_as_map(s).contains_key(k) <==> exists|i: int| 0 <= i < s.len() && s[i].0@ == k,
    decreases s.len(),
{
    if s.len() > 0 {
        lemma_entries_domain(s.drop_last(), k);
        if entries_as_map(s).contains_key(k) {
            if s.last().0@ == k {
                assert(s[s.len() - 1].0@ == k);
            } else {
                let i = choose|i: int| 0 <= i < s.drop_last().len() && s.drop_last()[i].0@ == k;
                assert(s[i].0@ == k);
            }
        }
        if exists|i: int| 0 <= i < s.len() && s[i].0@ == k {
            let i = choose|i: int| 0 <= i < s.len() && s[i].0@ == k;
            if i < s.len() - 1 {
                assert(s.drop_last()[i].0@ == k);
            }
        }
    }
}

/// The counter a fresh increment leaves under `k`: one more than the current
/// value, one on a missing key, saturating at `u32::MAX`.
pub open spec fn next_counter(m: Map<Seq<char>, u32>, k: Seq<char>) -> u32 {
    if m.contains_key(k) {
        if m[k] < u32::MAX {
            (m[k] + 1) as u32
        } else {
            u32::MAX
        }
    } else {
        1u32
    }
}

/// One atomic increment step on the mathematical store.
pub open spec fn spec_incr(m: Map<Seq<char>, u32>, k: Seq<char>) -> Map<Seq<char>, u32> {
    m.insert(k, next_counter(m, k))
}

/// `n` increment steps in a row on one key.
pub open spec fn spec_incr_n(m: Map<Seq<char>, u32>, k: Seq<char>, n: nat) -> Map<Seq<char>, u32>
    decreases n,
{
    if n == 0 {
        m
    } else {
        spec_incr(spec_incr_n(m, k, (n - 1) as nat), k)
    }
}

/// Counting loses no update: the lock serializes concurrent increments, and
/// `n` serialized increments of a key that starts at `m[k]` leave exactly
/// `m[k] + n`, as long as that sum stays below the counter's ceiling.
pub proof fn lemma_incr_n_adds_n(m: Map<Seq<char>, u32>, k: Seq<char>, n: nat)
    requires
        m.contains_key(k),
        m[k] + n <= u32::MAX,
    ensures
        spec_incr_n(m, k, n).contains_key(k),
        spec_incr_n(m, k, n)[k] == m[k] + n,
    decreases n,
{
    if n > 0 {
        lemma_incr_n_adds_n(m, k, (n - 1) as nat);
    }
}

impl CounterMap {
    /// The table's mathematical content.
    pub closed spec fn view(&self) -> Map<Seq<char>, u32> {
        entries_as_map(self.entries@)
    }

    /// A well-formed table holds each key at most once.
    pub closed spec fn wf(&self) -> bool {
        keys_distinct(self.entries@)
    }

    /// The empty table.
    pub fn new() -> (r: CounterMap)
        ensures
            r.wf(),
            r@ == Map::<Seq<char>, u32>::empty(),
    {
        CounterMap { entries: Vec::new() }
    }

    /// The position of `key` in the table, if any.
    fn find(&self, key: &String) -> (r: Option<usize>)
        ensures
            match r {
                Some(i) => i < self.entries@.len() && self.entries@[i as int].0@ == key@,
                None => forall|j: int| 0 <= j < self.entries@.len() ==> self.entries@[j].0@ != key@,
            },
    {
        let n = self.entries.len();
        let mut i: usize = 0;
        while i < n
            invariant
                n == self.entries@.len(),
                i <= n,
                forall|j: int| 0 <= j < i ==> self.entries@[j].0@ != key@,
            decreases n - i,
        {
            if self.entries[i].0 == *key {
                return Some(i);
            }
            i = i + 1;
        }
        None
    }

    /// The counter under `key`, or `None` where the key is absent.
    pub fn get(&self, key: &String) -> (r: Option<u32>)
        requires
            self.wf(),
        ensures
            r == if self@.contains_key(key@) {
                Some(self@[key@])
            } else {
                None::<u32>
            },
    {
        proof {
            lemma_entries_domain(self.entries@, key@);
        }
        match self.find(key) {
            Some(i) => {
                proof {
                    lemma_entries_index(self.entries@, i as int);
                }
                Some(self.entries[i].1)
            },
            None => None,
        }
    }

    /// Binds `key` to `value`, replacing any earlier binding.
    fn put(&mut self, key: String, value: u32)
        requires
            old(self).wf(),
        ensures
            final(self).wf(),
            final(self)@ == old(self)@.insert(key@, value),
    {
        let ghost s0 = self.entries@;
        match self.find(&key) {
            Some(i) => {
                let ghost key0 = key@;
                let _shadowed = self.entries.remove(i);
                self.entries.push((key, value));
                proof {
                    assert(key@ == key0 && self.entries@ == s0.remove(i as int).push((key, value)));
                    lemma_put_replaces(s0, i as int, self.entries@, key0, value);
                }
            },
            None => {
                self.entries.push((key, value));
                proof {
                    assert(self.entries@.drop_last() =~= s0);
                    assert(self@ == entries_as_map(s0).insert(key@, value));
                }
            },
        }
    }

    /// Adds one to `key`'s counter: a missing key initializes to one, and the
    /// counter saturates at `u32::MAX`.
    pub fn incr(&mut self, key: String)
        requires
            old(self).wf(),
        ensures
            final(self).wf(),
            final(self)@ == spec_incr(old(self)@, key@),
    {
        let next = match self.get(&key) {
            Some(v) => if v < u32::MAX {
                v + 1
            } else {
                v
            },
            None => 1,
        };
        self.put(key, next);
    }

    /// Administrative initialization: binds `key` to `value` outright.
    pub fn seed(&mut self, key: String, value: u32)
        requires
            old(self).wf(),
        ensures
            final(self).wf(),
            final(self)@ == old(self)@.insert(key@, value),
    {
        self.put(key, value);
    }
}

/// Removing the pair at `i` and pushing a pair with the same key re-binds
/// that key and nothing else.
proof fn lemma_put_replaces(s: Seq<(String, u32)>, i: int, t: Seq<(String, u32)>, k: Seq<char>, value: u32)
    requires
        keys_distinct(s),
        0 <= i < s.len(),
        k == s[i].0@,
        exists|key: String| key@ == k && t == s.remove(i).push((key, value)),
    ensures
        keys_distinct(t),
        entries_as_map(t) == entries_as_map(s).insert(k, value),
{
    // Every pair of `t` but the last comes from `s`, skipping position `i`.
    assert(t[t.len() - 1].0@ == k && t[t.len() - 1].1 == value);
    assert forall|a: int, b: int| 0 <= a < b < t.len() implies t[a].0@ != t[b].0@ by {
        let sa = if a < i { a } else { a + 1 };
        if b < t.len() - 1 {
            let sb = if b < i { b } else { b + 1 };
            assert(t[a] == s[sa] && t[b] == s[sb]);
        } else {
            assert(t[a] == s[sa] && sa != i);
        }
    }
    let mt = entries_as_map(t);
    let ms = entries_as_map(s).insert(k, value);
    assert forall|k2: Seq<char>| mt.contains_key(k2) <==> ms.contains_key(k2) by {
        lemma_entries_domain(t, k2);
        lemma_entries_domain(s, k2);
        if k2 == k {
            assert(t[t.len() - 1].0@ == k);
        } else {
            if exists|a: int| 0 <= a < t.len() && t[a].0@ == k2 {
                let a = choose|a: int| 0 <= a < t.len() && t[a].0@ == k2;
                let sa = if a < i { a } else { a + 1 };
                assert(a < t.len() - 1 && t[a] == s[sa]);
            }
            if exists|b: int| 0 <= b < s.len() && s[b].0@ == k2 {
                let b = choose|b: int| 0 <= b < s.len() && s[b].0@ == k2;
                let a = if b < i { b } else { b - 1 };
                assert(b != i);
                assert(t[a] == s[b]);
            }
        }
    }
    assert forall|k2: Seq<char>| mt.contains_key(k2) implies mt[k2] == ms[k2] by {
        lemma_entries_domain(t, k2);
        if k2 == k {
            lemma_entries_index(t, t.len() - 1);
        } else {
            let a = choose|a: int| 0 <= a < t.len() && t[a].0@ == k2;
            let sa = if a < i { a } else { a + 1 };
            assert(a < t.len() - 1 && t[a] == s[sa]);
            lemma_entries_index(t, a);
            lemma_entries_index(s, sa);
        }
    }
    assert(mt =~= ms);
}

/// Which tables the shared lock may hold: any well-formed counter table.
pub struct StorePred;

impl RwLockPredicate<CounterMap> for StorePred {
    open spec fn inv(self, v: CounterMap) -> bool {
        v.wf()
    }
}

/// A cloneable handle to one shared, internally synchronized [`CounterMap`].
///
/// Every task that needs the store (connection handlers, the monitor) holds
/// a clone of the handle; the lock inside makes `get`, `incr` and `seed`
/// atomic with respect to one another, so concurrent increments are
/// serialized and none is lost (see [`lemma_incr_n_adds_n`]).
#[derive(Clone)]
pub struct State {
    store: Arc<RwLock<CounterMap, StorePred>>,
}

impl State {
    /// A fresh, empty store.
    pub fn new() -> State {
        State { store: Arc::new(RwLock::new(CounterMap::new(), Ghost(StorePred))) }
    }

    /// The counter under `key` at the moment the lock is held, or `None`
    /// where the key is absent.
    pub fn get(&self, key: String) -> Option<u32> {
        let handle = self.store.acquire_read();
        let r = handle.borrow().get(&key);
        handle.release_read();
        r
    }

    /// Atomically performs one [`spec_incr`] step on the shared table: adds
    /// one to `key`'s counter, initializing a missing key to one.
    pub fn incr(&self, key: String) {
        let (mut table, handle) = self.store.acquire_write();
        table.incr(key);
        handle.release_write(table);
    }

    /// Atomically binds `key` to `value`; meant for initialization before
    /// concurrent access begins.
    pub fn seed(&self, key: String, value: u32) {
        let (mut table, handle) = self.store.acquire_write();
        table.seed(key, value);
        handle.release_write(table);
    }

    /// Seeds the store with the one key the background monitor counts on.
    pub fn test(&self) -> &State {
        self.seed("www.google.de".to_owned(), 1);
        self
    }
}

} // verus!
