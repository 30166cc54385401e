//! Which addresses have an active subscription, and under which subscription id.

use vstd::prelude::*;
use crate::block_util::Address;

verus! {

/// Whether two addresses hold the same bytes.
pub fn same_address(a: &Address, b: &Address) -> (r: bool)
    ensures
        r == (a@ == b@),
{
    let mut i: usize = 0;
    while i < 20
        invariant
            i <= 20,
            a@.len() == 20,
            b@.len() == 20,
            forall|j: int| 0 <= j < i ==> a@[j] == b@[j],
        decreases 20 - i,
    {
        if a.0[i] != b.0[i] {
            assert(a@[i as int] != b@[i as int]);
            return false;
        }
        i = i + 1;
    }
    assert(a@ =~= b@);
    true
}

/// The position of address `k` among `entries`, when it is there.
pub open spec fn key_index(entries: Seq<(Address, String)>, k: Seq<u8>) -> int {
    choose|i: int| 0 <= i < entries.len() && entries[i].0@ == k
}

/// Whether address `k` is among `entries`.
pub open spec fn has_key(entries: Seq<(Address, String)>, k: Seq<u8>) -> bool {
    exists|i: int| 0 <= i < entries.len() && entries[i].0@ == k
}

/// No address occurs twice in `entries`.
pub open spec fn keys_unique(entries: Seq<(Address, String)>) -> bool {
    forall|i: int, j: int|
        0 <= i < entries.len() && 0 <= j < entries.len() && i != j ==> entries[i].0@
            != entries[j].0@
}

/// The map from address to subscription id that `entries` hold.
pub open spec fn entries_map(entries: Seq<(Address, String)>) -> Map<Seq<u8>, Seq<char>> {
    Map::new(|k: Seq<u8>| has_key(entries, k), |k: Seq<u8>| entries[key_index(entries, k)].1@)
}

/// The subscriptions in force: each address at most once, with the id that
/// Alchemy gave its subscription.
pub struct SubscriptionRegistry {
    entries: Vec<(Address, String)>,
}

impl View for SubscriptionRegistry {
    type V = Map<Seq<u8>, Seq<char>>;

    closed spec fn view(&self) -> Map<Seq<u8>, Seq<char>> {
        entries_map(self.entries@)
    }
}

proof fn lemma_entry_value(entries: Seq<(Address, String)>, i: int)
    requires
        keys_unique(entries),
        0 <= i < entries.len(),
    ensures
        entries_map(entries).contains_key(entries[i].0@),
        entries_map(entries)[entries[i].0@] == entries[i].1@,
{
    let k = entries[i].0@;
    assert(has_key(entries, k));
    let j = key_index(entries, k);
    assert(entries[j].0@ == k);
}

impl SubscriptionRegistry {
    #[verifier::type_invariant]
    spec fn unique(&self) -> bool {
        keys_unique(self.entries@)
    }

    /// No subscriptions.
    pub fn new() -> (r: Self)
        ensures
            r@ == Map::<Seq<u8>, Seq<char>>::empty(),
    {
        let r = SubscriptionRegistry { entries: Vec::new() };
        assert(r@ =~= Map::<Seq<u8>, Seq<char>>::empty());
        r
    }

    fn find(&self, address: &Address) -> (r: Option<usize>)
        ensures
            match r {
                Some(i) => i < self.entries@.len() && self.entries@[i as int].0@ == address@,
                None => !has_key(self.entries@, address@),
            },
    {
        let n = self.entries.len();
        let mut i: usize = 0;
        while i < n
            invariant
                n == self.entries@.len(),
                i <= n,
                forall|j: int| 0 <= j < i ==> self.entries@[j].0@ != address@,
            decreases n - i,
        {
            if same_address(&self.entries[i].0, address) {
                return Some(i);
            }
            i = i + 1;
        }
        None
    }

    /// The id of the subscription for `address`, if there is one.
    pub fn get(&self, address: &Address) -> (r: Option<String>)
        ensures
            match r {
                Some(s) => self@.contains_key(address@) && s@ == self@[address@],
                None => !self@.contains_key(address@),
            },
    {
        proof {
            use_type_invariant(self);
        }
        match self.find(address) {
            Some(i) => {
                proof {
                    lemma_entry_value(self.entries@, i as int);
                }
                Some(self.entries[i].1.clone())
            },
            None => None,
        }
    }

    /// Records `subscription_id` as the subscription of `address`, in place of
    /// any earlier one.
    pub fn insert(&mut self, address: Address, subscription_id: String)
        ensures
            final(self)@ == old(self)@.insert(address@, subscription_id@),
    {
        proof {
            use_type_invariant(&*self);
        }
        let ghost old_entries = self.entries@;
        let ghost k = address@;
        let ghost v = subscription_id@;
        match self.find(&address) {
            Some(i) => {
                let mut entries: Vec<(Address, String)> = Vec::new();
                std::mem::swap(&mut entries, &mut self.entries);
                entries.set(i, (address, subscription_id));
                proof {
                    let e = entries@;
                    assert(e == old_entries.update(i as int, e[i as int]));
                    assert forall|a: int, b: int|
                        0 <= a < e.len() && 0 <= b < e.len() && a != b implies e[a].0@
                        != e[b].0@ by {
                        if a != i && b != i {
                            assert(e[a] == old_entries[a] && e[b] == old_entries[b]);
                        } else if a == i {
                            assert(e[b] == old_entries[b]);
                        } else {
                            assert(e[a] == old_entries[a]);
                        }
                    }
                    assert(keys_unique(e));
                    assert forall|key: Seq<u8>| #[trigger]
                        entries_map(e).contains_key(key) == entries_map(
                            old_entries,
                        ).insert(k, v).contains_key(key) by {
                        if has_key(old_entries, key) {
                            let j = key_index(old_entries, key);
                            if j != i {
                                assert(e[j] == old_entries[j]);
                            }
                            assert(has_key(e, key));
                        }
                        if has_key(e, key) {
                            let j = key_index(e, key);
                            if j != i {
                                assert(e[j] == old_entries[j]);
                                assert(has_key(old_entries, key));
                            }
                        }
                    }
                    assert forall|key: Seq<u8>| #[trigger]
                        entries_map(e).contains_key(key) implies entries_map(e)[key]
                        == entries_map(old_entries).insert(k, v)[key] by {
                        let j = key_index(e, key);
                        lemma_entry_value(e, j);
                        if key != k {
                            assert(j != i);
                            assert(e[j] == old_entries[j]);
                            lemma_entry_value(old_entries, j);
                        }
                    }
                    assert(entries_map(e) =~= entries_map(old_entries).insert(k, v));
                }
                self.entries = entries;
            },
            None => {
                let mut entries: Vec<(Address, String)> = Vec::new();
                std::mem::swap(&mut entries, &mut self.entries);
                entries.push((address, subscription_id));
                proof {
                    let e = entries@;
                    let n = old_entries.len() as int;
                    assert(e == old_entries.push(e[n]));
                    assert forall|a: int, b: int|
                        0 <= a < e.len() && 0 <= b < e.len() && a != b implies e[a].0@
                        != e[b].0@ by {
                        if a != n && b != n {
                            assert(e[a] == old_entries[a] && e[b] == old_entries[b]);
                        } else if a == n {
                            assert(e[b] == old_entries[b]);
                            assert(!(0 <= b < old_entries.len() && old_entries[b].0@ == k));
                        } else {
                            assert(e[a] == old_entries[a]);
                            assert(!(0 <= a < old_entries.len() && old_entries[a].0@ == k));
                        }
                    }
                    assert(keys_unique(e));
                    assert forall|key: Seq<u8>| #[trigger]
                        entries_map(e).contains_key(key) == entries_map(
                            old_entries,
                        ).insert(k, v).contains_key(key) by {
                        if has_key(old_entries, key) {
                            let j = key_index(old_entries, key);
                            assert(e[j] == old_entries[j]);
                            assert(has_key(e, key));
                        }
                        if key == k {
                            assert(e[n].0@ == k);
                            assert(has_key(e, key));
                        }
                        if has_key(e, key) {
                            let j = key_index(e, key);
                            if j != n {
                                assert(e[j] == old_entries[j]);
                                assert(has_key(old_entries, key));
                            }
                        }
                    }
                    assert forall|key: Seq<u8>| #[trigger]
                        entries_map(e).contains_key(key) implies entries_map(e)[key]
                        == entries_map(old_entries).insert(k, v)[key] by {
                        let j = key_index(e, key);
                        lemma_entry_value(e, j);
                        if key != k {
                            assert(j != n);
                            assert(e[j] == old_entries[j]);
                            lemma_entry_value(old_entries, j);
                        }
                    }
                    assert(entries_map(e) =~= entries_map(old_entries).insert(k, v));
                }
                self.entries = entries;
            },
        }
    }

    /// Forgets the subscription of `address`, if there is one.
    pub fn remove(&mut self, address: &Address)
        ensures
            final(self)@ == old(self)@.remove(address@),
    {
        proof {
            use_type_invariant(&*self);
        }
        let ghost old_entries = self.entries@;
        let ghost k = address@;
        match self.find(address) {
            Some(i) => {
                let mut entries: Vec<(Address, String)> = Vec::new();
                std::mem::swap(&mut entries, &mut self.entries);
                let _ = entries.remove(i);
                proof {
                    let e = entries@;
                    assert(e == old_entries.remove(i as int));
                    assert forall|a: int| 0 <= a < e.len() implies #[trigger] e[a] == (if a
                        < i {
                        old_entries[a]
                    } else {
                        old_entries[a + 1]
                    }) by {}
                    assert forall|a: int, b: int|
                        0 <= a < e.len() && 0 <= b < e.len() && a != b implies e[a].0@
                        != e[b].0@ by {
                        let a1 = if a < i {
                            a
                        } else {
                            a + 1
                        };
                        let b1 = if b < i {
                            b
                        } else {
                            b + 1
                        };
                        assert(e[a] == old_entries[a1] && e[b] == old_entries[b1]);
                    }
                    assert(keys_unique(e));
                    assert forall|key: Seq<u8>| #[trigger]
                        entries_map(e).contains_key(key) == entries_map(old_entries).remove(
                            k,
                        ).contains_key(key) by {
                        if has_key(old_entries, key) && key != k {
                            let j = key_index(old_entries, key);
                            assert(j != i);
                            let j1 = if j < i {
                                j
                            } else {
                                j - 1
                            };
                            assert(e[j1] == old_entries[j]);
                            assert(has_key(e, key));
                        }
                        if has_key(e, key) {
                            let j = key_index(e, key);
                            let j1 = if j < i {
                                j
                            } else {
                                j + 1
                            };
                            assert(e[j] == old_entries[j1]);
                            assert(has_key(old_entries, key));
                            assert(j1 != i);
                        }
                    }
                    assert forall|key: Seq<u8>| #[trigger]
                        entries_map(e).contains_key(key) implies entries_map(e)[key]
                        == entries_map(old_entries).remove(k)[key] by {
                        let j = key_index(e, key);
                        lemma_entry_value(e, j);
                        let j1 = if j < i {
                            j
                        } else {
                            j + 1
                        };
                        assert(e[j] == old_entries[j1]);
                        lemma_entry_value(old_entries, j1);
                    }
                    assert(entries_map(e) =~= entries_map(old_entries).remove(k));
                }
                self.entries = entries;
            },
            None => {
                assert(entries_map(old_entries) =~= entries_map(old_entries).remove(k));
            },
        }
    }
}

} // verus!
