//! A map from text keys to text values in which a later insert of a key
//! replaces the earlier value, as the CLI's configuration maps behave.

use vstd::prelude::*;

verus! {

/// The map that a run of inserts, in order, leaves behind.
pub open spec fn map_of(entries: Seq<(Seq<char>, Seq<char>)>) -> Map<Seq<char>, Seq<char>>
    decreases entries.len(),
{
    if entries.len() == 0 {
        Map::empty()
    } else {
        map_of(entries.drop_last()).insert(entries.last().0, entries.last().1)
    }
}

pub open spec fn entry_view(e: (String, String)) -> (Seq<char>, Seq<char>) {
    (e.0@, e.1@)
}

/// Text keys to text values; `insert` replaces the value of a key that is
/// already there.
pub struct PropertyMap {
    entries: Vec<(String, String)>,
}

impl PropertyMap {
    pub closed spec fn spec_entries(&self) -> Seq<(Seq<char>, Seq<char>)> {
        self.entries@.map_values(|e: (String, String)| entry_view(e))
    }
}

impl View for PropertyMap {
    type V = Map<Seq<char>, Seq<char>>;

    closed spec fn view(&self) -> Map<Seq<char>, Seq<char>> {
        map_of(self.spec_entries())
    }
}

/// Entries after position `i` that carry other keys leave `k` as the prefix
/// up to `i` had it.
proof fn lemma_later_entries_keep_key(entries: Seq<(Seq<char>, Seq<char>)>, i: int, k: Seq<char>)
    requires
        0 <= i <= entries.len(),
        forall|j: int| i <= j < entries.len() ==> (#[trigger] entries[j]).0 != k,
    ensures
        map_of(entries).contains_key(k) == map_of(entries.subrange(0, i)).contains_key(k),
        map_of(entries).contains_key(k) ==> map_of(entries)[k] == map_of(entries.subrange(0, i))[k],
    decreases entries.len(),
{
    if i == entries.len() {
        assert(entries.subrange(0, i) =~= entries);
    } else {
        let shorter = entries.drop_last();
        assert forall|j: int| i <= j < shorter.len() implies (#[trigger] shorter[j]).0 != k by {
            assert(shorter[j] == entries[j]);
        }
        lemma_later_entries_keep_key(shorter, i, k);
        assert(shorter.subrange(0, i) =~= entries.subrange(0, i));
        assert(entries[entries.len() - 1].0 != k);
    }
}

/// Whether entry `i` is the last one that sets its key.
pub open spec fn is_last_for_key(entries: Seq<(Seq<char>, Seq<char>)>, i: int) -> bool {
    forall|j: int| i < j < entries.len() ==> (#[trigger] entries[j]).0 != entries[i].0
}

/// A key is in the map only if some entry sets it.
proof fn lemma_key_has_entry(entries: Seq<(Seq<char>, Seq<char>)>, k: Seq<char>)
    requires
        map_of(entries).contains_key(k),
    ensures
        exists|i: int| 0 <= i < entries.len() && (#[trigger] entries[i]).0 == k,
    decreases entries.len(),
{
    if entries.len() > 0 && entries.last().0 != k {
        lemma_key_has_entry(entries.drop_last(), k);
        let i = choose|i: int| 0 <= i < entries.drop_last().len() && (#[trigger] entries.drop_last()[i]).0 == k;
        assert(entries[i] == entries.drop_last()[i]);
    } else if entries.len() > 0 {
        assert(entries[entries.len() - 1].0 == k);
    }
}

/// A key that some entry sets has a last entry that sets it.
proof fn lemma_key_has_last_entry(entries: Seq<(Seq<char>, Seq<char>)>, i: int)
    requires
        0 <= i < entries.len(),
    ensures
        exists|l: int| i <= l < entries.len() && (#[trigger] entries[l]).0 == entries[i].0 && is_last_for_key(entries, l),
    decreases entries.len() - i,
{
    if is_last_for_key(entries, i) {
        assert(i <= i < entries.len() && entries[i].0 == entries[i].0 && is_last_for_key(entries, i));
    } else {
        let j = choose|j: int| i < j < entries.len() && (#[trigger] entries[j]).0 == entries[i].0;
        lemma_key_has_last_entry(entries, j);
        let l = choose|l: int| j <= l < entries.len() && (#[trigger] entries[l]).0 == entries[j].0 && is_last_for_key(entries, l);
        assert(i <= l < entries.len() && entries[l].0 == entries[i].0 && is_last_for_key(entries, l));
    }
}

/// Pairs that hold each key of `m` once, with its value, and nothing else.
pub open spec fn pairs_list_map(pairs: Seq<(String, String)>, m: Map<Seq<char>, Seq<char>>) -> bool {
    &&& forall|a: int, b: int| 0 <= a < b < pairs.len() ==> (#[trigger] pairs[a]).0@ != (#[trigger] pairs[b]).0@
    &&& forall|a: int| 0 <= a < pairs.len() ==> m.contains_key((#[trigger] pairs[a]).0@) && m[pairs[a].0@] == pairs[a].1@
    &&& forall|k: Seq<char>| m.contains_key(k) ==> exists|a: int| 0 <= a < pairs.len() && (#[trigger] pairs[a]).0@ == k
}

impl PropertyMap {
    /// Each key with its value, once each, in the order their last insert
    /// came.
    pub fn entries(&self) -> (pairs: Vec<(String, String)>)
        ensures
            pairs_list_map(pairs@, self@),
            forall|a: int, b: int|
                0 <= a < b < pairs@.len() ==> (#[trigger] pairs@[a]).0@ != (#[trigger] pairs@[b]).0@,
            forall|a: int|
                0 <= a < pairs@.len() ==> self@.contains_key((#[trigger] pairs@[a]).0@) && self@[pairs@[a].0@]
                    == pairs@[a].1@,
            forall|k: Seq<char>|
                self@.contains_key(k) ==> exists|a: int| 0 <= a < pairs@.len() && (#[trigger] pairs@[a]).0@ == k,
    {
        let ghost all = self.spec_entries();
        let mut pairs: Vec<(String, String)> = Vec::new();
        let ghost mut sources: Seq<int> = Seq::empty();
        let n = self.entries.len();
        let mut i: usize = 0;
        while i < n
            invariant
                n == self.entries@.len(),
                all == self.spec_entries(),
                i <= n,
                sources.len() == pairs@.len(),
                forall|a: int|
                    0 <= a < sources.len() ==> 0 <= #[trigger] sources[a] < i && is_last_for_key(all, sources[a])
                        && pairs@[a].0@ == all[sources[a]].0 && pairs@[a].1@ == all[sources[a]].1,
                forall|a: int, b: int| 0 <= a < b < sources.len() ==> #[trigger] sources[a] < #[trigger] sources[b],
                forall|l: int|
                    0 <= l < i && is_last_for_key(all, l) ==> exists|a: int|
                        0 <= a < sources.len() && #[trigger] sources[a] == l,
            decreases n - i,
        {
            let ghost before = sources;
            let mut later = false;
            let mut j: usize = i + 1;
            while j < n
                invariant
                    n == self.entries@.len(),
                    all == self.spec_entries(),
                    i < n,
                    i + 1 <= j <= n,
                    later == exists|m: int| i < m < j && (#[trigger] all[m]).0 == all[i as int].0,
                decreases n - j,
            {
                if self.entries[j].0 == self.entries[i].0 {
                    later = true;
                    assert(all[j as int].0 == all[i as int].0);
                }
                proof {
                    if !later {
                        assert forall|m: int| i < m < j + 1 implies (#[trigger] all[m]).0 != all[i as int].0 by {
                            if m < j {
                                if all[m].0 == all[i as int].0 {
                                    assert(exists|mm: int| i < mm < j && (#[trigger] all[mm]).0 == all[i as int].0);
                                }
                            }
                        }
                    }
                }
                j = j + 1;
            }
            if !later {
                assert(is_last_for_key(all, i as int)) by {
                    assert forall|m: int| i < m < all.len() implies (#[trigger] all[m]).0 != all[i as int].0 by {
                        if all[m].0 == all[i as int].0 {
                            assert(exists|mm: int| i < mm < j && (#[trigger] all[mm]).0 == all[i as int].0);
                        }
                    }
                }
                pairs.push((self.entries[i].0.clone(), self.entries[i].1.clone()));
                proof {
                    sources = sources.push(i as int);
                    assert(sources[sources.len() - 1] == i as int);
                }
            } else {
                assert(!is_last_for_key(all, i as int));
            }
            proof {
                assert forall|l: int| 0 <= l < i + 1 && is_last_for_key(all, l) implies exists|a: int|
                    0 <= a < sources.len() && #[trigger] sources[a] == l by {
                    if l == i {
                        assert(sources[sources.len() - 1] == l);
                    } else {
                        let a = choose|a: int| 0 <= a < before.len() && #[trigger] before[a] == l;
                        assert(sources[a] == before[a]);
                    }
                }
            }
            i = i + 1;
        }
        proof {
            assert forall|a: int| 0 <= a < pairs@.len() implies self@.contains_key((#[trigger] pairs@[a]).0@)
                && self@[pairs@[a].0@] == pairs@[a].1@ by {
                let src = sources[a];
                lemma_later_entries_keep_key(all, src + 1, all[src].0);
                assert(all.subrange(0, src + 1).drop_last() =~= all.subrange(0, src));
                assert(all.subrange(0, src + 1).last() == all[src]);
            }
            assert forall|a: int, b: int| 0 <= a < b < pairs@.len() implies (#[trigger] pairs@[a]).0@
                != (#[trigger] pairs@[b]).0@ by {
                let sa = sources[a];
                let sb = sources[b];
                assert(sa < sb);
                assert(all[sb].0 != all[sa].0);
            }
            assert forall|k: Seq<char>| self@.contains_key(k) implies exists|a: int|
                0 <= a < pairs@.len() && (#[trigger] pairs@[a]).0@ == k by {
                lemma_key_has_entry(all, k);
                let i0 = choose|i0: int| 0 <= i0 < all.len() && (#[trigger] all[i0]).0 == k;
                lemma_key_has_last_entry(all, i0);
                let l = choose|l: int| i0 <= l < all.len() && (#[trigger] all[l]).0 == all[i0].0 && is_last_for_key(all, l);
                let a = choose|a: int| 0 <= a < sources.len() && #[trigger] sources[a] == l;
                assert(pairs@[a].0@ == k);
            }
        }
        pairs
    }

    /// The empty map.
    pub fn new() -> (m: PropertyMap)
        ensures
            m@ == Map::<Seq<char>, Seq<char>>::empty(),
    {
        let m = PropertyMap { entries: Vec::new() };
        assert(m.spec_entries() =~= Seq::<(Seq<char>, Seq<char>)>::empty());
        m
    }

    /// Sets `key` to `value`, replacing any value it had.
    pub fn insert(&mut self, key: String, value: String)
        ensures
            final(self)@ == old(self)@.insert(key@, value@),
    {
        let ghost before = self.spec_entries();
        self.entries.push((key, value));
        assert(self.spec_entries().drop_last() =~= before);
    }

    /// The value of `key`, if it has one.
    pub fn get(&self, key: &str) -> (r: Option<String>)
        ensures
            r matches Some(v) ==> self@.contains_key(key@) && self@[key@] == v@,
            r is None ==> !self@.contains_key(key@),
    {
        let wanted = key.to_owned();
        let ghost entries = self.spec_entries();
        let mut i: usize = self.entries.len();
        while i > 0
            invariant
                i <= self.entries@.len(),
                wanted@ == key@,
                entries == self.spec_entries(),
                forall|j: int| i <= j < entries.len() ==> (#[trigger] entries[j]).0 != key@,
            decreases i,
        {
            if self.entries[i - 1].0 == wanted {
                proof {
                    lemma_later_entries_keep_key(entries, i as int, key@);
                    assert(entries.subrange(0, i as int).drop_last() =~= entries.subrange(0, i - 1));
                    assert(entries.subrange(0, i as int).last() == entries[i - 1]);
                }
                return Some(self.entries[i - 1].1.clone());
            }
            i = i - 1;
        }
        proof {
            lemma_later_entries_keep_key(entries, 0, key@);
            assert(entries.subrange(0, 0) =~= Seq::<(Seq<char>, Seq<char>)>::empty());
        }
        None
    }

    /// Whether `key` has a value.
    pub fn contains_key(&self, key: &str) -> (b: bool)
        ensures
            b == self@.contains_key(key@),
    {
        self.get(key).is_some()
    }
}

} // verus!
