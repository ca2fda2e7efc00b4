//! An in-memory model of one image file's tag table.
//!
//! A [`TagStore`] holds, for each present [`TagKey`], a non-empty list of
//! string values, and is viewed in specifications as a
//! `Map<TagKey, Seq<Seq<char>>>`. It offers the capability surface the
//! reconciler is written against: get, set and clear per tag, an existence
//! check, and single- as well as multi-valued access.

use crate::tags::TagKey;
use vstd::pervasive::VecAdditionalExecFns;
use vstd::prelude::*;

verus! {

/// One tag of the store: an identifier together with its values. In a
/// well-formed store the value list is never empty; a non-repeatable tag
/// holds exactly one value, a repeatable tag one value per entry written.
pub struct TagEntry {
    pub key: TagKey,
    pub values: Vec<String>,
}

/// Whether `entries` form a well-formed tag table: each key occurs at most
/// once, and a present tag has at least one value.
pub open spec fn entries_wf(entries: Seq<TagEntry>) -> bool {
    &&& forall|i: int, j: int|
        0 <= i < j < entries.len() ==> entries[i].key != entries[j].key
    &&& forall|i: int| 0 <= i < entries.len() ==> entries[i].values@.len() > 0
}

/// Whether some entry of `entries` carries the key `k`.
pub open spec fn entries_contain(entries: Seq<TagEntry>, k: TagKey) -> bool {
    exists|i: int| 0 <= i < entries.len() && entries[i].key == k
}

/// The values of the entry of `entries` that carries `k`; meaningful only
/// where `entries_contain(entries, k)` holds.
pub open spec fn entries_values(entries: Seq<TagEntry>, k: TagKey) -> Seq<Seq<char>> {
    let i = choose|i: int| 0 <= i < entries.len() && entries[i].key == k;
    entries[i].values.deep_view()
}

/// The tag table of `entries` as a map from key to value list.
pub open spec fn entries_map(entries: Seq<TagEntry>) -> Map<TagKey, Seq<Seq<char>>> {
    Map::new(|k: TagKey| entries_contain(entries, k), |k: TagKey| entries_values(entries, k))
}

/// In a well-formed table a key names at most one entry.
proof fn lemma_unique_index(entries: Seq<TagEntry>, i: int, j: int)
    requires
        entries_wf(entries),
        0 <= i < entries.len(),
        0 <= j < entries.len(),
        entries[i].key == entries[j].key,
    ensures
        i == j,
{
    if i < j {
        assert(entries[i].key != entries[j].key);
    }
    if j < i {
        assert(entries[j].key != entries[i].key);
    }
}

/// The map of a well-formed table sends the key of entry `i` to that
/// entry's values.
proof fn lemma_map_at(entries: Seq<TagEntry>, i: int)
    requires
        entries_wf(entries),
        0 <= i < entries.len(),
    ensures
        entries_map(entries).dom().contains(entries[i].key),
        entries_map(entries)[entries[i].key] == entries[i].values.deep_view(),
{
    assert(entries_contain(entries, entries[i].key));
    let j = choose|j: int| 0 <= j < entries.len() && entries[j].key == entries[i].key;
    lemma_unique_index(entries, i, j);
}

/// Replacing entry `i` by an entry with the same key updates the map at
/// that key and keeps the table well-formed.
proof fn lemma_map_update(entries: Seq<TagEntry>, i: int, e: TagEntry)
    requires
        entries_wf(entries),
        0 <= i < entries.len(),
        e.key == entries[i].key,
        e.values@.len() > 0,
    ensures
        entries_wf(entries.update(i, e)),
        entries_map(entries.update(i, e)) == entries_map(entries).insert(
            e.key,
            e.values.deep_view(),
        ),
{
    let t = entries.update(i, e);
    assert(forall|p: int| 0 <= p < t.len() ==> t[p].key == entries[p].key);
    assert(entries_wf(t));
    assert forall|k: TagKey| entries_contain(t, k) == entries_contain(entries, k) by {
        if entries_contain(t, k) {
            let p = choose|p: int| 0 <= p < t.len() && t[p].key == k;
            assert(entries[p].key == k);
        }
        if entries_contain(entries, k) {
            let p = choose|p: int| 0 <= p < entries.len() && entries[p].key == k;
            assert(t[p].key == k);
        }
    }
    assert forall|k: TagKey| entries_contain(entries, k) && k != e.key implies entries_values(
        t,
        k,
    ) == entries_values(entries, k) by {
        let p = choose|p: int| 0 <= p < entries.len() && entries[p].key == k;
        assert(t[p].key == k);
        lemma_map_at(t, p);
        lemma_map_at(entries, p);
        assert(p != i);
    }
    lemma_map_at(t, i);
    assert(entries_map(t) =~= entries_map(entries).insert(e.key, e.values.deep_view()));
}

/// Appending an entry whose key is absent inserts it into the map and
/// keeps the table well-formed.
proof fn lemma_map_push(entries: Seq<TagEntry>, e: TagEntry)
    requires
        entries_wf(entries),
        !entries_contain(entries, e.key),
        e.values@.len() > 0,
    ensures
        entries_wf(entries.push(e)),
        entries_map(entries.push(e)) == entries_map(entries).insert(
            e.key,
            e.values.deep_view(),
        ),
{
    let t = entries.push(e);
    assert forall|p: int, q: int| 0 <= p < q < t.len() implies t[p].key != t[q].key by {
        if q < entries.len() {
            assert(entries[p].key != entries[q].key);
        } else {
            assert(t[q] == e);
            if t[p].key == e.key {
                assert(entries_contain(entries, e.key));
            }
        }
    }
    assert(entries_wf(t));
    assert forall|k: TagKey| #[trigger] entries_contain(t, k) && k != e.key implies
        entries_contain(entries, k) && entries_values(t, k) == entries_values(entries, k) by {
        let p = choose|p: int| 0 <= p < t.len() && t[p].key == k;
        assert(p < entries.len());
        assert(entries[p].key == k);
        lemma_map_at(t, p);
        lemma_map_at(entries, p);
    }
    assert forall|k: TagKey| entries_contain(entries, k) implies entries_contain(t, k) by {
        let p = choose|p: int| 0 <= p < entries.len() && entries[p].key == k;
        assert(t[p].key == k);
    }
    lemma_map_at(t, entries.len() as int);
    assert(entries_map(t) =~= entries_map(entries).insert(e.key, e.values.deep_view()));
}

/// Removing entry `i` removes its key from the map and keeps the table
/// well-formed.
proof fn lemma_map_remove(entries: Seq<TagEntry>, i: int)
    requires
        entries_wf(entries),
        0 <= i < entries.len(),
    ensures
        entries_wf(entries.remove(i)),
        entries_map(entries.remove(i)) == entries_map(entries).remove(entries[i].key),
{
    let t = entries.remove(i);
    entries.remove_ensures(i);
    assert forall|p: int, q: int| 0 <= p < q < t.len() implies t[p].key != t[q].key by {
        let p0: int = if p < i { p } else { p + 1 };
        let q0: int = if q < i { q } else { q + 1 };
        assert(t[p] == entries[p0]);
        assert(t[q] == entries[q0]);
        assert(entries[p0].key != entries[q0].key);
    }
    assert forall|p: int| 0 <= p < t.len() implies t[p].values@.len() > 0 by {
        let p0: int = if p < i { p } else { p + 1 };
        assert(t[p] == entries[p0]);
    }
    assert(entries_wf(t));
    assert forall|k: TagKey| #[trigger] entries_contain(t, k) implies entries_contain(
        entries,
        k,
    ) && k != entries[i].key && entries_values(t, k) == entries_values(entries, k) by {
        let p = choose|p: int| 0 <= p < t.len() && t[p].key == k;
        let p0: int = if p < i { p } else { p + 1 };
        assert(t[p] == entries[p0]);
        assert(entries[p0].key == k);
        if k == entries[i].key {
            lemma_unique_index(entries, p0, i);
        }
        lemma_map_at(t, p);
        lemma_map_at(entries, p0);
    }
    assert forall|k: TagKey| entries_contain(entries, k) && k != entries[i].key implies
        entries_contain(t, k) by {
        let p0 = choose|p0: int| 0 <= p0 < entries.len() && entries[p0].key == k;
        assert(p0 != i);
        let p: int = if p0 < i { p0 } else { p0 - 1 };
        assert(t[p] == entries[p0]);
    }
    assert(entries_map(t) =~= entries_map(entries).remove(entries[i].key));
}

/// The effect on a tag table of writing one string value to tag `k`: a
/// repeatable tag that is already present gains one more entry, any other
/// tag is replaced by the single value.
pub open spec fn spec_set_string(
    m: Map<TagKey, Seq<Seq<char>>>,
    k: TagKey,
    v: Seq<char>,
) -> Map<TagKey, Seq<Seq<char>>> {
    if k.spec_is_repeatable() && m.dom().contains(k) {
        m.insert(k, m[k].push(v))
    } else {
        m.insert(k, seq![v])
    }
}

/// The effect on a tag table of replacing tag `k` by a whole value list:
/// an empty list removes the tag.
pub open spec fn spec_set_multiple(
    m: Map<TagKey, Seq<Seq<char>>>,
    k: TagKey,
    vs: Seq<Seq<char>>,
) -> Map<TagKey, Seq<Seq<char>>> {
    if vs.len() == 0 {
        m.remove(k)
    } else {
        m.insert(k, vs)
    }
}

/// The tag table of one image file.
pub struct TagStore {
    entries: Vec<TagEntry>,
}

impl TagStore {
    /// Well-formedness: one entry per key, each with at least one value.
    /// Every constructor establishes it and every method keeps it.
    pub closed spec fn inv(&self) -> bool {
        entries_wf(self.entries@)
    }

    /// The store as a map from tag key to the tag's list of values.
    pub closed spec fn view(&self) -> Map<TagKey, Seq<Seq<char>>> {
        entries_map(self.entries@)
    }

    /// An empty store, with no tags present.
    pub fn new() -> (s: TagStore)
        ensures
            s.inv(),
            s@ == Map::<TagKey, Seq<Seq<char>>>::empty(),
    {
        let s = TagStore { entries: Vec::new() };
        proof {
            assert(s@ =~= Map::<TagKey, Seq<Seq<char>>>::empty());
        }
        s
    }

    /// The index of the entry carrying `k`, if one exists.
    fn find(&self, k: TagKey) -> (r: Option<usize>)
        ensures
            match r {
                Some(i) => i < self.entries@.len() && self.entries@[i as int].key == k,
                None => forall|i: int|
                    0 <= i < self.entries@.len() ==> self.entries@[i].key != k,
            },
    {
        let n = self.entries.len();
        let mut i: usize = 0;
        while i < n
            invariant
                n == self.entries@.len(),
                i <= n,
                forall|j: int| 0 <= j < i ==> self.entries@[j].key != k,
            decreases n - i,
        {
            if self.entries[i].key == k {
                return Some(i);
            }
            i = i + 1;
        }
        None
    }

    /// Whether the store holds the tag `k`.
    pub fn has_tag(&self, k: TagKey) -> (r: bool)
        requires
            self.inv(),
        ensures
            r == self@.dom().contains(k),
    {
        let r = self.find(k);
        proof {
            if r is Some {
                let i = r->0;
                assert(entries_contain(self.entries@, k));
            } else {
                assert(!entries_contain(self.entries@, k));
            }
        }
        r.is_some()
    }

    /// The first value of tag `k`, if the tag is present.
    pub fn get_tag_string(&self, k: TagKey) -> (r: Option<String>)
        requires
            self.inv(),
        ensures
            match r {
                Some(s) => self@.dom().contains(k) && self@[k].len() > 0 && s@ == self@[k][0],
                None => !self@.dom().contains(k),
            },
    {
        match self.find(k) {
            Some(i) => {
                proof {
                    lemma_map_at(self.entries@, i as int);
                    assert(self@[k][0] == self.entries@[i as int].values@[0]@);
                }
                Some(self.entries[i].values[0].clone())
            },
            None => {
                proof {
                    assert(!entries_contain(self.entries@, k));
                }
                None
            },
        }
    }

    /// All values of tag `k`, if the tag is present.
    pub fn get_tag_multiple_strings(&self, k: TagKey) -> (r: Option<Vec<String>>)
        requires
            self.inv(),
        ensures
            match r {
                Some(vs) => self@.dom().contains(k) && vs.deep_view() == self@[k]
                    && vs@.len() > 0,
                None => !self@.dom().contains(k),
            },
    {
        match self.find(k) {
            Some(i) => {
                let vs = self.entries[i].values.clone();
                proof {
                    lemma_map_at(self.entries@, i as int);
                    assert(vs@ =~= self.entries@[i as int].values@);
                    assert(vs.deep_view() =~= self.entries@[i as int].values.deep_view());
                }
                Some(vs)
            },
            None => {
                proof {
                    assert(!entries_contain(self.entries@, k));
                }
                None
            },
        }
    }

    /// Writes one string value to tag `k`: a repeatable tag already present
    /// gains one more entry, any other tag is replaced by the single value.
    pub fn set_tag_string(&mut self, k: TagKey, v: &String)
        requires
            old(self).inv(),
        ensures
            final(self).inv(),
            final(self)@ == spec_set_string(old(self)@, k, v@),
    {
        match self.find(k) {
            Some(i) => {
                proof {
                    lemma_map_at(self.entries@, i as int);
                }
                let mut values: Vec<String>;
                if k.is_repeatable() {
                    values = self.entries[i].values.clone();
                    proof {
                        assert(values@ =~= self.entries@[i as int].values@);
                    }
                    values.push(v.clone());
                    proof {
                        assert(values.deep_view() =~= old(self)@[k].push(v@));
                    }
                } else {
                    values = Vec::new();
                    values.push(v.clone());
                    proof {
                        assert(values.deep_view() =~= seq![v@]);
                    }
                }
                let e = TagEntry { key: k, values };
                proof {
                    lemma_map_update(self.entries@, i as int, e);
                }
                self.entries.set(i, e);
            },
            None => {
                proof {
                    assert(!entries_contain(self.entries@, k));
                }
                let mut values: Vec<String> = Vec::new();
                values.push(v.clone());
                proof {
                    assert(values.deep_view() =~= seq![v@]);
                }
                let e = TagEntry { key: k, values };
                proof {
                    lemma_map_push(self.entries@, e);
                }
                self.entries.push(e);
            },
        }
    }

    /// Replaces tag `k` by the given list of values; an empty list removes
    /// the tag.
    pub fn set_tag_multiple_strings(&mut self, k: TagKey, values: &Vec<String>)
        requires
            old(self).inv(),
        ensures
            final(self).inv(),
            final(self)@ == spec_set_multiple(old(self)@, k, values.deep_view()),
    {
        if values.is_empty() {
            proof {
                assert(values.deep_view() =~= Seq::<Seq<char>>::empty());
            }
            self.clear_tag(k);
        } else {
            let vs = values.clone();
            proof {
                assert(vs@ =~= values@);
                assert(vs.deep_view() =~= values.deep_view());
            }
            let e = TagEntry { key: k, values: vs };
            match self.find(k) {
                Some(i) => {
                    proof {
                        lemma_map_update(self.entries@, i as int, e);
                    }
                    self.entries.set(i, e);
                },
                None => {
                    proof {
                        assert(!entries_contain(self.entries@, k));
                        lemma_map_push(self.entries@, e);
                    }
                    self.entries.push(e);
                },
            }
        }
    }

    /// Removes tag `k` from the store, if present.
    pub fn clear_tag(&mut self, k: TagKey)
        requires
            old(self).inv(),
        ensures
            final(self).inv(),
            final(self)@ == old(self)@.remove(k),
    {
        match self.find(k) {
            Some(i) => {
                proof {
                    lemma_map_remove(self.entries@, i as int);
                }
                self.entries.remove(i);
            },
            None => {
                proof {
                    assert(!entries_contain(self.entries@, k));
                    assert(self@ =~= old(self)@.remove(k));
                }
            },
        }
    }
}

} // verus!
