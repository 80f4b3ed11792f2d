//! An association list from string keys to string values.
//!
//! The on-disk alias record and the watcher's in-memory cursor record are
//! both small string-to-string maps.  They are kept as ordered entry lists
//! with pairwise-distinct keys; `map_lookup` (first match wins) is the
//! mathematical reading that every contract speaks in.

use vstd::prelude::*;

verus! {

/// One key/value pair of a [`StrMap`].
#[derive(Debug, PartialEq, Eq)]
pub struct StrMapEntry {
    pub key: String,
    pub value: String,
}

impl Clone for StrMapEntry {
    fn clone(&self) -> (r: Self)
        ensures
            r == *self,
    {
        StrMapEntry { key: self.key.clone(), value: self.value.clone() }
    }
}

/// A map from string keys to string values, stored as an entry list.
#[derive(Debug, PartialEq, Eq)]
pub struct StrMap {
    pub entries: Vec<StrMapEntry>,
}

/// The value bound to `key`: the first entry whose key matches, if any.
pub open spec fn map_lookup(s: Seq<StrMapEntry>, key: Seq<char>) -> Option<String>
    decreases s.len(),
{
    if s.len() == 0 {
        None
    } else if s[0].key@ == key {
        Some(s[0].value)
    } else {
        map_lookup(s.drop_first(), key)
    }
}

/// Whether some entry of `s` has key `key`.
pub open spec fn has_key(s: Seq<StrMapEntry>, key: Seq<char>) -> bool {
    exists|i: int| 0 <= i < s.len() && s[i].key@ == key
}

/// Whether the keys of `s` are pairwise distinct.
pub open spec fn unique_keys(s: Seq<StrMapEntry>) -> bool {
    forall|i: int, j: int| 0 <= i < j < s.len() ==> s[i].key@ != s[j].key@
}

/// `s` without the entries whose key is `key`, order preserved.
pub open spec fn drop_key(s: Seq<StrMapEntry>, key: Seq<char>) -> Seq<StrMapEntry>
    decreases s.len(),
{
    if s.len() == 0 {
        Seq::empty()
    } else if s[0].key@ == key {
        drop_key(s.drop_first(), key)
    } else {
        seq![s[0]] + drop_key(s.drop_first(), key)
    }
}

/// The entries of `s` whose value lies in `keep`, order preserved.
pub open spec fn keep_values(s: Seq<StrMapEntry>, keep: Set<Seq<char>>) -> Seq<StrMapEntry>
    decreases s.len(),
{
    if s.len() == 0 {
        Seq::empty()
    } else if keep.contains(s[0].value@) {
        seq![s[0]] + keep_values(s.drop_first(), keep)
    } else {
        keep_values(s.drop_first(), keep)
    }
}

/// The set of views of the strings in `v`.
pub open spec fn str_view_set(v: Seq<String>) -> Set<Seq<char>> {
    Set::new(|k: Seq<char>| exists|i: int| 0 <= i < v.len() && v[i]@ == k)
}

/// Every character sequence but `dead`.
pub open spec fn other_values(dead: Seq<char>) -> Set<Seq<char>> {
    Set::new(|k: Seq<char>| k != dead)
}

/// Looking a key up in a concatenation searches the left part first.
pub proof fn lemma_lookup_append(s1: Seq<StrMapEntry>, s2: Seq<StrMapEntry>, key: Seq<char>)
    ensures
        map_lookup(s1 + s2, key) == if map_lookup(s1, key) is Some {
            map_lookup(s1, key)
        } else {
            map_lookup(s2, key)
        },
    decreases s1.len(),
{
    if s1.len() == 0 {
        assert(s1 + s2 =~= s2);
    } else {
        assert((s1 + s2)[0] == s1[0]);
        assert((s1 + s2).drop_first() =~= s1.drop_first() + s2);
        lemma_lookup_append(s1.drop_first(), s2, key);
    }
}

/// A lookup in a one-entry list.
pub proof fn lemma_lookup_singleton(e: StrMapEntry, key: Seq<char>)
    ensures
        map_lookup(seq![e], key) == if e.key@ == key {
            Some(e.value)
        } else {
            None::<String>
        },
{
    reveal_with_fuel(map_lookup, 2);
    assert(seq![e].drop_first() =~= Seq::<StrMapEntry>::empty());
    assert(seq![e][0] == e);
}

/// A lookup misses exactly when no entry has the key.
pub proof fn lemma_lookup_none(s: Seq<StrMapEntry>, key: Seq<char>)
    ensures
        (map_lookup(s, key) is None) <==> !has_key(s, key),
    decreases s.len(),
{
    if s.len() == 0 {
    } else if s[0].key@ == key {
        assert(has_key(s, key));
    } else {
        lemma_lookup_none(s.drop_first(), key);
        if has_key(s, key) {
            let i = choose|i: int| 0 <= i < s.len() && s[i].key@ == key;
            assert(s.drop_first()[i - 1] == s[i]);
            assert(has_key(s.drop_first(), key));
        }
        if has_key(s.drop_first(), key) {
            let i = choose|i: int|
                0 <= i < s.drop_first().len() && s.drop_first()[i].key@ == key;
            assert(s[i + 1] == s.drop_first()[i]);
            assert(has_key(s, key));
        }
    }
}

/// A key present in the drop of `s` was present in `s`.
pub proof fn lemma_drop_key_has_key(s: Seq<StrMapEntry>, key: Seq<char>, k2: Seq<char>)
    ensures
        has_key(drop_key(s, key), k2) ==> has_key(s, k2),
    decreases s.len(),
{
    if s.len() == 0 {
    } else {
        let rest = s.drop_first();
        lemma_drop_key_has_key(rest, key, k2);
        if has_key(drop_key(rest, key), k2) {
            let i = choose|i: int| 0 <= i < rest.len() && rest[i].key@ == k2;
            assert(s[i + 1] == rest[i]);
            assert(has_key(s, k2));
        }
        if s[0].key@ != key {
            let d = seq![s[0]] + drop_key(rest, key);
            assert(drop_key(s, key) == d);
            if has_key(d, k2) {
                let i = choose|i: int| 0 <= i < d.len() && d[i].key@ == k2;
                if i == 0 {
                    assert(d[0] == s[0]);
                    assert(has_key(s, k2));
                } else {
                    assert(d[i] == drop_key(rest, key)[i - 1]);
                    assert(has_key(drop_key(rest, key), k2));
                }
            }
        }
    }
}

/// What `drop_key` does to lookups: the dropped key is gone and every
/// other key keeps its binding.
pub proof fn lemma_drop_key_lookup(s: Seq<StrMapEntry>, key: Seq<char>)
    ensures
        map_lookup(drop_key(s, key), key) is None,
        forall|k2: Seq<char>| k2 != key ==> #[trigger] map_lookup(drop_key(s, key), k2)
            == map_lookup(s, k2),
    decreases s.len(),
{
    if s.len() == 0 {
    } else {
        let rest = s.drop_first();
        lemma_drop_key_lookup(rest, key);
        if s[0].key@ == key {
            assert(drop_key(s, key) == drop_key(rest, key));
            assert forall|k2: Seq<char>| k2 != key implies #[trigger] map_lookup(
                drop_key(s, key),
                k2,
            ) == map_lookup(s, k2) by {
                assert(map_lookup(s, k2) == map_lookup(rest, k2));
            }
        } else {
            assert(drop_key(s, key) == seq![s[0]] + drop_key(rest, key));
            lemma_lookup_append(seq![s[0]], drop_key(rest, key), key);
            lemma_lookup_singleton(s[0], key);
            assert forall|k2: Seq<char>| k2 != key implies #[trigger] map_lookup(
                drop_key(s, key),
                k2,
            ) == map_lookup(s, k2) by {
                lemma_lookup_append(seq![s[0]], drop_key(rest, key), k2);
                lemma_lookup_singleton(s[0], k2);
            }
        }
    }
}

/// `drop_key` keeps keys pairwise distinct.
pub proof fn lemma_drop_key_unique(s: Seq<StrMapEntry>, key: Seq<char>)
    requires
        unique_keys(s),
    ensures
        unique_keys(drop_key(s, key)),
    decreases s.len(),
{
    if s.len() == 0 {
    } else {
        let rest = s.drop_first();
        assert(unique_keys(rest)) by {
            assert forall|i: int, j: int| 0 <= i < j < rest.len() implies rest[i].key@
                != rest[j].key@ by {
                assert(rest[i] == s[i + 1] && rest[j] == s[j + 1]);
            }
        }
        lemma_drop_key_unique(rest, key);
        if s[0].key@ != key {
            let d = seq![s[0]] + drop_key(rest, key);
            assert(drop_key(s, key) == d);
            assert forall|i: int, j: int| 0 <= i < j < d.len() implies d[i].key@ != d[j].key@ by {
                if i == 0 {
                    assert(d[j] == drop_key(rest, key)[j - 1]);
                    assert(has_key(drop_key(rest, key), d[j].key@));
                    lemma_drop_key_has_key(rest, key, d[j].key@);
                    let l = choose|l: int| 0 <= l < rest.len() && rest[l].key@ == d[j].key@;
                    assert(rest[l] == s[l + 1]);
                    assert(s[0].key@ != s[l + 1].key@);
                } else {
                    assert(d[i] == drop_key(rest, key)[i - 1]);
                    assert(d[j] == drop_key(rest, key)[j - 1]);
                }
            }
        }
    }
}

/// Appending one entry and then dropping a key is dropping the key first
/// and appending the entry when its key differs.
pub proof fn lemma_drop_key_push(s: Seq<StrMapEntry>, e: StrMapEntry, key: Seq<char>)
    ensures
        drop_key(s.push(e), key) == if e.key@ == key {
            drop_key(s, key)
        } else {
            drop_key(s, key) + seq![e]
        },
    decreases s.len(),
{
    reveal_with_fuel(drop_key, 2);
    if s.len() == 0 {
        assert(s.push(e)[0] == e);
        assert(s.push(e).drop_first() =~= Seq::<StrMapEntry>::empty());
        assert(s =~= Seq::<StrMapEntry>::empty());
        if e.key@ == key {
            assert(drop_key(s.push(e), key) =~= drop_key(s, key));
        } else {
            assert(drop_key(s.push(e), key) =~= drop_key(s, key) + seq![e]);
        }
    } else {
        assert(s.push(e)[0] == s[0]);
        assert(s.push(e).drop_first() =~= s.drop_first().push(e));
        lemma_drop_key_push(s.drop_first(), e, key);
        if s[0].key@ == key {
        } else {
            if e.key@ == key {
            } else {
                assert(seq![s[0]] + (drop_key(s.drop_first(), key) + seq![e]) =~= (seq![s[0]]
                    + drop_key(s.drop_first(), key)) + seq![e]);
            }
        }
    }
}

/// A key present in `keep_values(s, keep)` was present in `s`.
pub proof fn lemma_keep_values_has_key(s: Seq<StrMapEntry>, keep: Set<Seq<char>>, k: Seq<char>)
    ensures
        has_key(keep_values(s, keep), k) ==> has_key(s, k),
    decreases s.len(),
{
    if s.len() == 0 {
    } else {
        let rest = s.drop_first();
        lemma_keep_values_has_key(rest, keep, k);
        if has_key(keep_values(rest, keep), k) {
            let i = choose|i: int| 0 <= i < rest.len() && rest[i].key@ == k;
            assert(s[i + 1] == rest[i]);
            assert(has_key(s, k));
        }
        if keep.contains(s[0].value@) {
            let kv = seq![s[0]] + keep_values(rest, keep);
            assert(keep_values(s, keep) == kv);
            if has_key(kv, k) {
                let i = choose|i: int| 0 <= i < kv.len() && kv[i].key@ == k;
                if i == 0 {
                    assert(kv[0] == s[0]);
                    assert(has_key(s, k));
                } else {
                    assert(kv[i] == keep_values(rest, keep)[i - 1]);
                    assert(has_key(keep_values(rest, keep), k));
                }
            }
        }
    }
}

/// What `keep_values` does to lookups, given pairwise-distinct keys: a
/// binding survives exactly when its value is kept.
pub proof fn lemma_keep_values_lookup(s: Seq<StrMapEntry>, keep: Set<Seq<char>>)
    requires
        unique_keys(s),
    ensures
        forall|k: Seq<char>| #[trigger] map_lookup(keep_values(s, keep), k) == (
        match map_lookup(s, k) {
            Some(v) => if keep.contains(v@) {
                Some(v)
            } else {
                None::<String>
            },
            None => None::<String>,
        }),
        unique_keys(keep_values(s, keep)),
    decreases s.len(),
{
    if s.len() == 0 {
    } else {
        let rest = s.drop_first();
        assert(unique_keys(rest)) by {
            assert forall|i: int, j: int| 0 <= i < j < rest.len() implies rest[i].key@
                != rest[j].key@ by {
                assert(rest[i] == s[i + 1] && rest[j] == s[j + 1]);
            }
        }
        lemma_keep_values_lookup(rest, keep);
        if keep.contains(s[0].value@) {
            let kv = seq![s[0]] + keep_values(rest, keep);
            assert(keep_values(s, keep) == kv);
            assert forall|k: Seq<char>| #[trigger] map_lookup(keep_values(s, keep), k) == (
            match map_lookup(s, k) {
                Some(v) => if keep.contains(v@) {
                    Some(v)
                } else {
                    None::<String>
                },
                None => None::<String>,
            }) by {
                lemma_lookup_append(seq![s[0]], keep_values(rest, keep), k);
                lemma_lookup_singleton(s[0], k);
            }
            assert forall|i: int, j: int| 0 <= i < j < kv.len() implies kv[i].key@
                != kv[j].key@ by {
                if i == 0 {
                    assert(kv[j] == keep_values(rest, keep)[j - 1]);
                    assert(has_key(keep_values(rest, keep), kv[j].key@));
                    lemma_keep_values_has_key(rest, keep, kv[j].key@);
                    let l = choose|l: int| 0 <= l < rest.len() && rest[l].key@ == kv[j].key@;
                    assert(rest[l] == s[l + 1]);
                    assert(s[0].key@ != s[l + 1].key@);
                } else {
                    assert(kv[i] == keep_values(rest, keep)[i - 1]);
                    assert(kv[j] == keep_values(rest, keep)[j - 1]);
                }
            }
        } else {
            assert(keep_values(s, keep) == keep_values(rest, keep));
            assert forall|k: Seq<char>| #[trigger] map_lookup(keep_values(s, keep), k) == (
            match map_lookup(s, k) {
                Some(v) => if keep.contains(v@) {
                    Some(v)
                } else {
                    None::<String>
                },
                None => None::<String>,
            }) by {
                if k == s[0].key@ {
                    assert(map_lookup(s, k) == Some(s[0].value));
                    if has_key(rest, k) {
                        let l = choose|l: int| 0 <= l < rest.len() && rest[l].key@ == k;
                        assert(rest[l] == s[l + 1]);
                        assert(s[0].key@ != s[l + 1].key@);
                        assert(false);
                    }
                    lemma_lookup_none(rest, k);
                } else {
                    assert(map_lookup(s, k) == map_lookup(rest, k));
                }
            }
        }
    }
}

/// Appending one entry and then keeping values distributes over the append.
pub proof fn lemma_keep_values_push(s: Seq<StrMapEntry>, e: StrMapEntry, keep: Set<Seq<char>>)
    ensures
        keep_values(s.push(e), keep) == if keep.contains(e.value@) {
            keep_values(s, keep) + seq![e]
        } else {
            keep_values(s, keep)
        },
    decreases s.len(),
{
    reveal_with_fuel(keep_values, 2);
    if s.len() == 0 {
        assert(s.push(e)[0] == e);
        assert(s.push(e).drop_first() =~= Seq::<StrMapEntry>::empty());
        assert(s =~= Seq::<StrMapEntry>::empty());
        if keep.contains(e.value@) {
            assert(keep_values(s.push(e), keep) =~= keep_values(s, keep) + seq![e]);
        } else {
            assert(keep_values(s.push(e), keep) =~= keep_values(s, keep));
        }
    } else {
        assert(s.push(e)[0] == s[0]);
        assert(s.push(e).drop_first() =~= s.drop_first().push(e));
        lemma_keep_values_push(s.drop_first(), e, keep);
        if keep.contains(s[0].value@) && keep.contains(e.value@) {
            assert(seq![s[0]] + (keep_values(s.drop_first(), keep) + seq![e]) =~= (seq![s[0]]
                + keep_values(s.drop_first(), keep)) + seq![e]);
        }
    }
}

/// Whether `v` holds a string whose characters equal `s`.
pub fn contains_str(v: &Vec<String>, s: &str) -> (r: bool)
    ensures
        r == str_view_set(v@).contains(s@),
{
    let needle: String = s.to_owned();
    let mut i: usize = 0;
    while i < v.len()
        invariant
            i <= v@.len(),
            needle@ == s@,
            forall|j: int| 0 <= j < i ==> v@[j]@ != s@,
        decreases v@.len() - i,
    {
        if v[i] == needle {
            proof {
                assert(str_view_set(v@).contains(s@));
            }
            return true;
        }
        i = i + 1;
    }
    proof {
        if str_view_set(v@).contains(s@) {
            let j = choose|j: int| 0 <= j < v@.len() && v@[j]@ == s@;
            assert(v@[j]@ != s@);
        }
    }
    false
}

impl StrMap {
    /// The keys of the underlying entry list are pairwise distinct.
    pub open spec fn wf(self) -> bool {
        unique_keys(self.entries@)
    }

    /// The value bound to a key, if any.
    pub open spec fn spec_get(self, key: Seq<char>) -> Option<String> {
        map_lookup(self.entries@, key)
    }

    /// An empty map.
    pub fn new() -> (r: StrMap)
        ensures
            r.entries@ == Seq::<StrMapEntry>::empty(),
            r.wf(),
    {
        StrMap { entries: Vec::new() }
    }

    /// How many bindings the map holds.
    pub fn len(&self) -> (n: usize)
        ensures
            n == self.entries@.len(),
    {
        self.entries.len()
    }

    /// Looks `key` up and returns a copy of its value.
    pub fn get(&self, key: &str) -> (r: Option<String>)
        ensures
            r == self.spec_get(key@),
    {
        let needle: String = key.to_owned();
        proof {
            assert(self.entries@.skip(0) =~= self.entries@);
        }
        let mut i: usize = 0;
        while i < self.entries.len()
            invariant
                i <= self.entries@.len(),
                needle@ == key@,
                map_lookup(self.entries@, key@) == map_lookup(
                    self.entries@.skip(i as int),
                    key@,
                ),
            decreases self.entries@.len() - i,
        {
            proof {
                assert(self.entries@.skip(i as int)[0] == self.entries@[i as int]);
            }
            let e = &self.entries[i];
            if e.key == needle {
                return Some(e.value.clone());
            }
            proof {
                assert(self.entries@.skip(i as int).drop_first() =~= self.entries@.skip(
                    i + 1 as int,
                ));
            }
            i = i + 1;
        }
        proof {
            assert(self.entries@.skip(self.entries@.len() as int)
                =~= Seq::<StrMapEntry>::empty());
        }
        None
    }

    /// Removes the binding of `key`, if present.  The surviving entries are
    /// exactly the old entries with other keys, in order.
    pub fn remove(&mut self, key: &str) -> (removed: bool)
        requires
            old(self).wf(),
        ensures
            final(self).wf(),
            final(self).entries@ == drop_key(old(self).entries@, key@),
            final(self).spec_get(key@) is None,
            forall|k2: Seq<char>| k2 != key@ ==> #[trigger] map_lookup(final(self).entries@, k2)
                == map_lookup(old(self).entries@, k2),
            removed == has_key(old(self).entries@, key@),
    {
        let needle: String = key.to_owned();
        let mut out: Vec<StrMapEntry> = Vec::new();
        let mut removed = false;
        let mut i: usize = 0;
        proof {
            assert(self.entries@.take(0) =~= Seq::<StrMapEntry>::empty());
        }
        while i < self.entries.len()
            invariant
                i <= self.entries@.len(),
                needle@ == key@,
                out@ == drop_key(self.entries@.take(i as int), key@),
                removed == has_key(self.entries@.take(i as int), key@),
            decreases self.entries@.len() - i,
        {
            let ghost prefix = self.entries@.take(i as int);
            let ghost next = self.entries@.take(i + 1 as int);
            let e = &self.entries[i];
            proof {
                lemma_drop_key_push(prefix, self.entries@[i as int], key@);
                assert(prefix.push(self.entries@[i as int]) =~= next);
            }
            if e.key == needle {
                removed = true;
                proof {
                    assert(next[i as int] == self.entries@[i as int]);
                    assert(has_key(next, key@));
                }
            } else {
                out.push(e.clone());
                proof {
                    assert(out@ =~= drop_key(prefix, key@) + seq![self.entries@[i as int]]);
                }
            }
            proof {
                if has_key(next, key@) {
                    let j = choose|j: int| 0 <= j < next.len() && next[j].key@ == key@;
                    if j < i {
                        assert(prefix[j] == next[j]);
                        assert(has_key(prefix, key@));
                    } else {
                        assert(next[j] == self.entries@[i as int]);
                    }
                }
                if has_key(prefix, key@) {
                    let j = choose|j: int| 0 <= j < prefix.len() && prefix[j].key@ == key@;
                    assert(next[j] == prefix[j]);
                    assert(has_key(next, key@));
                }
            }
            i = i + 1;
        }
        proof {
            assert(self.entries@.take(self.entries@.len() as int) =~= self.entries@);
        }
        self.entries = out;
        proof {
            lemma_drop_key_unique(old(self).entries@, key@);
            lemma_drop_key_lookup(old(self).entries@, key@);
        }
        removed
    }

    /// Binds `key` to `value`, replacing any previous binding.
    pub fn insert(&mut self, key: String, value: String)
        requires
            old(self).wf(),
        ensures
            final(self).wf(),
            final(self).spec_get(key@) == Some(value),
            forall|k2: Seq<char>| k2 != key@ ==> #[trigger] map_lookup(final(self).entries@, k2)
                == map_lookup(old(self).entries@, k2),
    {
        let ghost old_entries = self.entries@;
        self.remove(key.as_str());
        let ghost filtered = self.entries@;
        let entry = StrMapEntry { key, value };
        self.entries.push(entry);
        proof {
            assert(self.entries@ =~= filtered + seq![entry]);
            lemma_lookup_append(filtered, seq![entry], entry.key@);
            lemma_lookup_singleton(entry, entry.key@);
            lemma_lookup_none(filtered, entry.key@);
            assert forall|k2: Seq<char>| k2 != entry.key@ implies map_lookup(self.entries@, k2)
                == map_lookup(old_entries, k2) by {
                lemma_lookup_append(filtered, seq![entry], k2);
                lemma_lookup_singleton(entry, k2);
            }
            assert forall|i: int, j: int| 0 <= i < j < self.entries@.len()
                implies self.entries@[i].key@ != self.entries@[j].key@ by {
                if j < self.entries@.len() - 1 {
                    assert(self.entries@[i] == filtered[i] && self.entries@[j] == filtered[j]);
                } else {
                    assert(self.entries@[i] == filtered[i]);
                    assert(self.entries@[j] == entry);
                    if filtered[i].key@ == entry.key@ {
                        assert(has_key(filtered, entry.key@));
                        lemma_lookup_none(filtered, entry.key@);
                    }
                }
            }
        }
    }

    /// Removes every binding whose value does not occur in `keep`.
    pub fn retain_values(&mut self, keep: &Vec<String>)
        requires
            old(self).wf(),
        ensures
            final(self).wf(),
            final(self).entries@ == keep_values(old(self).entries@, str_view_set(keep@)),
            forall|k: Seq<char>| #[trigger] map_lookup(final(self).entries@, k) == (
            match map_lookup(old(self).entries@, k) {
                Some(v) => if str_view_set(keep@).contains(v@) {
                    Some(v)
                } else {
                    None::<String>
                },
                None => None::<String>,
            }),
    {
        let ghost keep_set = str_view_set(keep@);
        let mut out: Vec<StrMapEntry> = Vec::new();
        let mut i: usize = 0;
        proof {
            assert(self.entries@.take(0) =~= Seq::<StrMapEntry>::empty());
        }
        while i < self.entries.len()
            invariant
                i <= self.entries@.len(),
                keep_set == str_view_set(keep@),
                out@ == keep_values(self.entries@.take(i as int), keep_set),
            decreases self.entries@.len() - i,
        {
            let ghost prefix = self.entries@.take(i as int);
            let e = &self.entries[i];
            proof {
                lemma_keep_values_push(prefix, self.entries@[i as int], keep_set);
                assert(prefix.push(self.entries@[i as int]) =~= self.entries@.take(i + 1 as int));
            }
            if contains_str(keep, e.value.as_str()) {
                out.push(e.clone());
                proof {
                    assert(out@ =~= keep_values(prefix, keep_set) + seq![self.entries@[i as int]]);
                }
            }
            i = i + 1;
        }
        proof {
            assert(self.entries@.take(self.entries@.len() as int) =~= self.entries@);
        }
        self.entries = out;
        proof {
            lemma_keep_values_lookup(old(self).entries@, keep_set);
        }
    }

    /// Removes every binding whose value is `dead`.
    pub fn remove_value(&mut self, dead: &str)
        requires
            old(self).wf(),
        ensures
            final(self).wf(),
            final(self).entries@ == keep_values(old(self).entries@, other_values(dead@)),
            forall|k: Seq<char>| #[trigger] map_lookup(final(self).entries@, k) == (
            match map_lookup(old(self).entries@, k) {
                Some(v) => if v@ == dead@ {
                    None::<String>
                } else {
                    Some(v)
                },
                None => None::<String>,
            }),
    {
        let ghost keep_set = other_values(dead@);
        let needle: String = dead.to_owned();
        let mut out: Vec<StrMapEntry> = Vec::new();
        let mut i: usize = 0;
        proof {
            assert(self.entries@.take(0) =~= Seq::<StrMapEntry>::empty());
        }
        while i < self.entries.len()
            invariant
                i <= self.entries@.len(),
                needle@ == dead@,
                keep_set == other_values(dead@),
                out@ == keep_values(self.entries@.take(i as int), keep_set),
            decreases self.entries@.len() - i,
        {
            let ghost prefix = self.entries@.take(i as int);
            let e = &self.entries[i];
            proof {
                lemma_keep_values_push(prefix, self.entries@[i as int], keep_set);
                assert(prefix.push(self.entries@[i as int]) =~= self.entries@.take(i + 1 as int));
            }
            if !(e.value == needle) {
                out.push(e.clone());
                proof {
                    assert(out@ =~= keep_values(prefix, keep_set) + seq![self.entries@[i as int]]);
                }
            }
            i = i + 1;
        }
        proof {
            assert(self.entries@.take(self.entries@.len() as int) =~= self.entries@);
        }
        self.entries = out;
        proof {
            lemma_keep_values_lookup(old(self).entries@, keep_set);
        }
    }
}

impl Clone for StrMap {
    fn clone(&self) -> (r: Self)
        ensures
            r.entries@ == self.entries@,
    {
        let mut entries: Vec<StrMapEntry> = Vec::new();
        let mut i: usize = 0;
        while i < self.entries.len()
            invariant
                i <= self.entries@.len(),
                entries@ == self.entries@.take(i as int),
            decreases self.entries@.len() - i,
        {
            entries.push(self.entries[i].clone());
            proof {
                assert(entries@ =~= self.entries@.take(i + 1 as int));
            }
            i = i + 1;
        }
        proof {
            assert(self.entries@.take(self.entries@.len() as int) =~= self.entries@);
        }
        StrMap { entries }
    }
}

} // verus!
