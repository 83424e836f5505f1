//! A table from texts to values, kept in the order of first insertion.
use vstd::prelude::*;

use crate::text::same;

verus! {

/// One key of a [`TextMap`] with its value.
pub struct TextEntry<V> {
    pub key: String,
    pub value: V,
}

/// A map whose keys are texts.  No key occurs twice.
pub struct TextMap<V> {
    pub entries: Vec<TextEntry<V>>,
}

/// Some entry has the key `k`.
pub open spec fn has_key<V>(s: Seq<TextEntry<V>>, k: Seq<char>) -> bool {
    exists|i: int| 0 <= i < s.len() && (#[trigger] s[i]).key@ == k
}

/// The index of an entry with the key `k`.
pub open spec fn key_index<V>(s: Seq<TextEntry<V>>, k: Seq<char>) -> int {
    choose|i: int| 0 <= i < s.len() && (#[trigger] s[i]).key@ == k
}

/// No two entries have the same key.
pub open spec fn keys_distinct<V>(s: Seq<TextEntry<V>>) -> bool {
    forall|i: int, j: int|
        0 <= i < j < s.len() ==> (#[trigger] s[i]).key@ != (#[trigger] s[j]).key@
}

/// The map that a list of entries stands for.
pub open spec fn entry_map<V>(s: Seq<TextEntry<V>>) -> Map<Seq<char>, V> {
    Map::new(|k: Seq<char>| has_key(s, k), |k: Seq<char>| s[key_index(s, k)].value)
}

/// Putting another value into an entry puts it under the entry's key, and
/// leaves the keys as they are.
pub proof fn value_replaced<V>(s: Seq<TextEntry<V>>, i: int, e: TextEntry<V>)
    requires
        keys_distinct(s),
        0 <= i < s.len(),
        e.key@ == s[i].key@,
    ensures
        keys_distinct(s.update(i, e)),
        entry_map(s.update(i, e)) == entry_map(s).insert(e.key@, e.value),
{
    let t = s.update(i, e);
    assert forall|a: int, b: int| 0 <= a < b < t.len() implies (#[trigger] t[a]).key@ != (
    #[trigger] t[b]).key@ by {
        assert(t[a].key@ == s[a].key@);
        assert(t[b].key@ == s[b].key@);
    }
    assert forall|k: Seq<char>| has_key(t, k) == has_key(s, k) by {
        if has_key(s, k) {
            let j = key_index(s, k);
            assert(t[j].key@ == k);
        }
        if has_key(t, k) {
            let j = key_index(t, k);
            assert(s[j].key@ == k);
        }
    }
    assert forall|k: Seq<char>| has_key(t, k) implies entry_map(t)[k] == entry_map(s).insert(
        e.key@,
        e.value,
    )[k] by {
        let j = key_index(t, k);
        assert(t[j].key@ == k);
        let j0 = key_index(s, k);
        assert(has_key(s, k));
        assert(s[j0].key@ == k);
        assert(s[j].key@ == k);
        assert(j == j0);
        assert(s[i].key@ == e.key@);
    }
    assert(has_key(s, e.key@)) by {
        assert(s[i].key@ == e.key@);
    }
    assert(entry_map(t) =~= entry_map(s).insert(e.key@, e.value));
}

impl<V> View for TextMap<V> {
    type V = Map<Seq<char>, V>;

    open spec fn view(&self) -> Map<Seq<char>, V> {
        entry_map(self.entries@)
    }
}

impl<V> TextMap<V> {
    /// No key occurs twice.
    pub open spec fn wf(&self) -> bool {
        keys_distinct(self.entries@)
    }

    /// The keys, in the order in which they were first inserted.
    pub open spec fn key_list(&self) -> Seq<Seq<char>> {
        self.entries@.map_values(|e: TextEntry<V>| e.key@)
    }

    /// An entry is what the map holds under its key.
    pub proof fn entry_in_map(&self, i: int)
        requires
            self.wf(),
            0 <= i < self.entries@.len(),
        ensures
            self@.dom().contains(self.entries@[i].key@),
            self@[self.entries@[i].key@] == self.entries@[i].value,
    {
        let k = self.entries@[i].key@;
        assert(has_key(self.entries@, k));
        let j = key_index(self.entries@, k);
        assert(self.entries@[j].key@ == k);
    }

    /// The empty table.
    pub fn new() -> (r: TextMap<V>)
        ensures
            r.wf(),
            r@ == Map::<Seq<char>, V>::empty(),
            r.entries@.len() == 0,
    {
        let r = TextMap { entries: Vec::new() };
        assert(r@ =~= Map::<Seq<char>, V>::empty());
        r
    }

    /// The number of keys.
    pub fn len(&self) -> (n: usize)
        ensures
            n == self.entries@.len(),
    {
        self.entries.len()
    }

    /// The index of `key`, if it is there.
    pub fn position(&self, key: &str) -> (r: Option<usize>)
        requires
            self.wf(),
        ensures
            match r {
                Some(i) => i < self.entries@.len() && self.entries@[i as int].key@ == key@
                    && self@.dom().contains(key@) && self@[key@] == self.entries@[i as int].value,
                None => !self@.dom().contains(key@),
            },
    {
        let mut i: usize = 0;
        while i < self.entries.len()
            invariant
                0 <= i <= self.entries.len(),
                self.wf(),
                forall|j: int| 0 <= j < i ==> (#[trigger] self.entries@[j]).key@ != key@,
            decreases self.entries.len() - i,
        {
            if same(self.entries[i].key.as_str(), key) {
                proof {
                    self.entry_in_map(i as int);
                }
                return Some(i);
            }
            i += 1;
        }
        None
    }

    /// The value under `key`.
    pub fn get(&self, key: &str) -> (r: Option<&V>)
        requires
            self.wf(),
        ensures
            match r {
                Some(v) => self@.dom().contains(key@) && *v == self@[key@],
                None => !self@.dom().contains(key@),
            },
    {
        match self.position(key) {
            Some(i) => Some(&self.entries[i].value),
            None => None,
        }
    }

    /// The value under `key`, to be changed.
    pub fn get_mut(&mut self, key: &str) -> (r: Option<&mut V>)
        requires
            old(self).wf(),
        ensures
            match r {
                Some(v) => {
                    &&& old(self)@.dom().contains(key@)
                    &&& *v == old(self)@[key@]
                    &&& final(self).wf()
                    &&& final(self)@ == old(self)@.insert(key@, *final(v))
                },
                None => !old(self)@.dom().contains(key@) && *final(self) == *old(self),
            },
    {
        match self.position(key) {
            Some(i) => {
                let ghost before = self.entries@;
                proof {
                    assert forall|v: V|
                        #![trigger before.update(
                            i as int,
                            TextEntry { key: before[i as int].key, value: v },
                        )]
                        {
                            let t = before.update(
                                i as int,
                                TextEntry { key: before[i as int].key, value: v },
                            );
                            keys_distinct(t) && entry_map(t) == entry_map(before).insert(key@, v)
                        } by {
                        value_replaced(
                            before,
                            i as int,
                            TextEntry { key: before[i as int].key, value: v },
                        );
                    }
                }
                Some(&mut self.entries[i].value)
            },
            None => None,
        }
    }

    /// Whether `key` is there.
    pub fn contains_key(&self, key: &str) -> (r: bool)
        requires
            self.wf(),
        ensures
            r == self@.dom().contains(key@),
    {
        self.position(key).is_some()
    }

    /// Puts `value` under `key`, in place of what was there.
    pub fn insert(&mut self, key: String, value: V)
        requires
            old(self).wf(),
        ensures
            final(self).wf(),
            final(self)@ == old(self)@.insert(key@, value),
            final(self).key_list() == (if old(self)@.dom().contains(key@) {
                old(self).key_list()
            } else {
                old(self).key_list().push(key@)
            }),
    {
        let ghost before = self.entries@;
        let ghost map = self@;
        let ghost text = key@;
        match self.position(key.as_str()) {
            Some(i) => {
                self.entries.set(i, TextEntry { key, value });
                let ghost after = self.entries@;
                proof {
                    assert forall|a: int, b: int| 0 <= a < b < after.len() implies (
                    #[trigger] after[a]).key@ != (#[trigger] after[b]).key@ by {
                        assert(after[a].key@ == before[a].key@);
                        assert(after[b].key@ == before[b].key@);
                    }
                    assert forall|k: Seq<char>| has_key(after, k) == has_key(before, k) by {
                        if has_key(before, k) {
                            let j = key_index(before, k);
                            assert(after[j].key@ == k);
                        }
                        if has_key(after, k) {
                            let j = key_index(after, k);
                            assert(before[j].key@ == k);
                        }
                    }
                    assert forall|k: Seq<char>| has_key(after, k) implies self@[k] == map.insert(
                        text,
                        value,
                    )[k] by {
                        let j = key_index(after, k);
                        self.entry_in_map(j);
                        if k == text {
                            self.entry_in_map(i as int);
                        } else {
                            let old_self = TextMap { entries: old(self).entries };
                            old_self.entry_in_map(j);
                        }
                    }
                    assert(self@ =~= map.insert(text, value));
                    assert(self.key_list() =~= old(self).key_list());
                }
            },
            None => {
                self.entries.push(TextEntry { key, value });
                let ghost after = self.entries@;
                proof {
                    assert forall|a: int, b: int| 0 <= a < b < after.len() implies (
                    #[trigger] after[a]).key@ != (#[trigger] after[b]).key@ by {
                        if b == before.len() && after[a].key@ == text {
                            assert(has_key(before, text));
                        }
                    }
                    assert forall|k: Seq<char>|
                        has_key(after, k) == (has_key(before, k) || k == text) by {
                        if has_key(before, k) {
                            let j = key_index(before, k);
                            assert(after[j].key@ == k);
                        }
                        if k == text {
                            assert(after[before.len() as int].key@ == k);
                        }
                        if has_key(after, k) {
                            let j = key_index(after, k);
                            if j < before.len() {
                                assert(before[j].key@ == k);
                            }
                        }
                    }
                    assert forall|k: Seq<char>| has_key(after, k) implies self@[k] == map.insert(
                        text,
                        value,
                    )[k] by {
                        let j = key_index(after, k);
                        self.entry_in_map(j);
                        if j < before.len() {
                            let old_self = TextMap { entries: old(self).entries };
                            old_self.entry_in_map(j);
                            assert(has_key(before, k));
                        }
                    }
                    assert(self@ =~= map.insert(text, value));
                    assert(self.key_list() =~= old(self).key_list().push(text));
                }
            },
        }
    }

    /// Takes the value under `key` out of the table.
    pub fn remove(&mut self, key: &str) -> (r: Option<V>)
        requires
            old(self).wf(),
        ensures
            final(self).wf(),
            final(self)@ == old(self)@.remove(key@),
            match r {
                Some(v) => old(self)@.dom().contains(key@) && v == old(self)@[key@],
                None => !old(self)@.dom().contains(key@) && final(self).entries@ == old(
                    self,
                ).entries@,
            },
    {
        let ghost before = self.entries@;
        let ghost map = self@;
        match self.position(key) {
            Some(i) => {
                let entry = self.entries.remove(i);
                let ghost after = self.entries@;
                proof {
                    assert(after =~= before.remove(i as int));
                    assert forall|a: int, b: int| 0 <= a < b < after.len() implies (
                    #[trigger] after[a]).key@ != (#[trigger] after[b]).key@ by {
                        let a0 = if a < i {
                            a
                        } else {
                            a + 1
                        };
                        let b0 = if b < i {
                            b
                        } else {
                            b + 1
                        };
                        assert(after[a] == before[a0]);
                        assert(after[b] == before[b0]);
                    }
                    assert forall|k: Seq<char>|
                        has_key(after, k) == (has_key(before, k) && k != key@) by {
                        if has_key(after, k) {
                            let j = key_index(after, k);
                            let j0 = if j < i {
                                j
                            } else {
                                j + 1
                            };
                            assert(before[j0].key@ == k);
                            assert(before[i as int].key@ == key@);
                        }
                        if has_key(before, k) && k != key@ {
                            let j = key_index(before, k);
                            assert(j != i);
                            let j0 = if j < i {
                                j
                            } else {
                                j - 1
                            };
                            assert(after[j0].key@ == k);
                        }
                    }
                    assert forall|k: Seq<char>| has_key(after, k) implies self@[k] == map[k] by {
                        let j = key_index(after, k);
                        let j0 = if j < i {
                            j
                        } else {
                            j + 1
                        };
                        self.entry_in_map(j);
                        let old_self = TextMap { entries: old(self).entries };
                        old_self.entry_in_map(j0);
                    }
                    assert(self@ =~= map.remove(key@));
                }
                Some(entry.value)
            },
            None => {
                assert(map.remove(key@) =~= map);
                None
            },
        }
    }
}

} // verus!
