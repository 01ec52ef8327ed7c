//! A map with last-write-wins upserts, keyed by a path of strings.
use vstd::prelude::*;

verus! {

/// The abstract key of a path of strings.
pub open spec fn key_view(k: Seq<String>) -> Seq<Seq<char>> {
    k.map_values(|s: String| s@)
}

/// The map that a sequence of entries denotes: a later entry overrides an
/// earlier one with the same key.
pub open spec fn entries_map<V>(s: Seq<(Vec<String>, V)>) -> Map<Seq<Seq<char>>, V>
    decreases s.len(),
{
    if s.len() == 0 {
        Map::empty()
    } else {
        let last = s.last();
        entries_map(s.drop_last()).insert(key_view(last.0@), last.1)
    }
}

/// No two entries share a key.
pub open spec fn keys_unique<V>(s: Seq<(Vec<String>, V)>) -> bool {
    forall|i: int, j: int|
        0 <= i < j < s.len() ==> key_view(#[trigger] s[i].0@) != key_view(#[trigger] s[j].0@)
}

/// Replacing the value of an entry with a unique key is an insert into the map.
proof fn lemma_update_is_insert<V>(s: Seq<(Vec<String>, V)>, i: int, e: (Vec<String>, V))
    requires
        keys_unique(s),
        0 <= i < s.len(),
        key_view(s[i].0@) == key_view(e.0@),
    ensures
        entries_map(s.update(i, e)) == entries_map(s).insert(key_view(e.0@), e.1),
    decreases s.len(),
{
    let t = s.update(i, e);
    if i == s.len() - 1 {
        assert(t.drop_last() =~= s.drop_last());
        assert(entries_map(t) =~= entries_map(s).insert(key_view(e.0@), e.1));
    } else {
        assert(t.drop_last() =~= s.drop_last().update(i, e));
        assert(keys_unique(s.drop_last()));
        lemma_update_is_insert(s.drop_last(), i, e);
        assert(key_view(s.last().0@) != key_view(s[i].0@));
        assert(entries_map(t) =~= entries_map(s).insert(key_view(e.0@), e.1));
    }
}

/// A key that no entry holds is absent from the map.
proof fn lemma_absent_key<V>(s: Seq<(Vec<String>, V)>, k: Seq<Seq<char>>)
    requires
        forall|j: int| 0 <= j < s.len() ==> key_view(#[trigger] s[j].0@) != k,
    ensures
        !entries_map(s).contains_key(k),
    decreases s.len(),
{
    if s.len() > 0 {
        assert forall|j: int| 0 <= j < s.drop_last().len() implies key_view(
            #[trigger] s.drop_last()[j].0@,
        ) != k by {
            assert(s.drop_last()[j] == s[j]);
        }
        lemma_absent_key(s.drop_last(), k);
        assert(key_view(s[s.len() - 1].0@) != k);
    }
}

/// The value stored under a key that entry `i` holds.
proof fn lemma_entry_value<V>(s: Seq<(Vec<String>, V)>, i: int)
    requires
        keys_unique(s),
        0 <= i < s.len(),
    ensures
        entries_map(s).contains_key(key_view(s[i].0@)),
        entries_map(s)[key_view(s[i].0@)] == s[i].1,
    decreases s.len(),
{
    if i < s.len() - 1 {
        assert(keys_unique(s.drop_last()));
        assert(s.drop_last()[i] == s[i]);
        lemma_entry_value(s.drop_last(), i);
        assert(key_view(s.last().0@) != key_view(s[i].0@));
    }
}

/// Two keys are equal exactly when their abstract keys are.
fn keys_equal(a: &Vec<String>, b: &Vec<String>) -> (r: bool)
    ensures
        r == (key_view(a@) == key_view(b@)),
{
    if a.len() != b.len() {
        assert(key_view(a@).len() != key_view(b@).len());
        return false;
    }
    let mut i: usize = 0;
    while i < a.len()
        invariant
            a.len() == b.len(),
            0 <= i <= a.len(),
            forall|j: int| 0 <= j < i ==> a@[j]@ == b@[j]@,
        decreases a.len() - i,
    {
        if a[i] != b[i] {
            assert(key_view(a@)[i as int] != key_view(b@)[i as int]);
            return false;
        }
        i = i + 1;
    }
    assert(key_view(a@) =~= key_view(b@));
    true
}

/// A map from string paths to values in which a later write to a key replaces
/// the earlier one.
#[derive(Clone, Debug)]
pub struct UpsertMap<V> {
    entries: Vec<(Vec<String>, V)>,
}

impl<V> UpsertMap<V> {
    /// The keys are unique.
    pub closed spec fn wf(&self) -> bool {
        keys_unique(self.entries@)
    }

    /// The map held.
    pub closed spec fn view(&self) -> Map<Seq<Seq<char>>, V> {
        entries_map(self.entries@)
    }

    /// The number of keys held.
    pub closed spec fn spec_len(&self) -> nat {
        self.entries@.len()
    }

    pub fn new() -> (r: Self)
        ensures
            r.wf(),
            r.view() == Map::<Seq<Seq<char>>, V>::empty(),
    {
        UpsertMap { entries: Vec::new() }
    }

    /// Writes `value` under `key`, replacing what was there.
    pub fn upsert(&mut self, key: Vec<String>, value: V)
        requires
            old(self).wf(),
        ensures
            final(self).wf(),
            final(self).view() == old(self).view().insert(key_view(key@), value),
    {
        let mut i: usize = 0;
        while i < self.entries.len()
            invariant
                0 <= i <= self.entries.len(),
                self.entries@ == old(self).entries@,
                keys_unique(self.entries@),
                forall|j: int| 0 <= j < i ==> key_view(#[trigger] self.entries@[j].0@) != key_view(key@),
            decreases self.entries.len() - i,
        {
            if keys_equal(&self.entries[i].0, &key) {
                proof {
                    lemma_update_is_insert(self.entries@, i as int, (key, value));
                }
                self.entries.set(i, (key, value));
                proof {
                    let s = self.entries@;
                    assert forall|a: int, b: int| 0 <= a < b < s.len() implies key_view(
                        #[trigger] s[a].0@,
                    ) != key_view(#[trigger] s[b].0@) by {
                        assert(key_view(s[a].0@) == key_view(old(self).entries@[a].0@));
                        assert(key_view(s[b].0@) == key_view(old(self).entries@[b].0@));
                    }
                }
                return;
            }
            i = i + 1;
        }
        let ghost k = key_view(key@);
        self.entries.push((key, value));
        proof {
            let s = self.entries@;
            assert(s.drop_last() =~= old(self).entries@);
            assert forall|a: int, b: int| 0 <= a < b < s.len() implies key_view(
                #[trigger] s[a].0@,
            ) != key_view(#[trigger] s[b].0@) by {
                if b == s.len() - 1 {
                    assert(s[a] == old(self).entries@[a]);
                } else {
                    assert(s[a] == old(self).entries@[a]);
                    assert(s[b] == old(self).entries@[b]);
                }
            }
        }
    }

    /// The value under `key`, if any.
    pub fn get(&self, key: &Vec<String>) -> (r: Option<&V>)
        requires
            self.wf(),
        ensures
            r == (if self.view().contains_key(key_view(key@)) {
                Some(&self.view()[key_view(key@)])
            } else {
                None
            }),
    {
        let mut i: usize = 0;
        while i < self.entries.len()
            invariant
                0 <= i <= self.entries.len(),
                self.wf(),
                forall|j: int| 0 <= j < i ==> key_view(#[trigger] self.entries@[j].0@) != key_view(key@),
            decreases self.entries.len() - i,
        {
            if keys_equal(&self.entries[i].0, key) {
                proof {
                    lemma_entry_value(self.entries@, i as int);
                }
                return Some(&self.entries[i].1);
            }
            i = i + 1;
        }
        proof {
            lemma_absent_key(self.entries@, key_view(key@));
        }
        None
    }

    /// The entries, each key once, in the order the keys were first written.
    pub fn entries(&self) -> (r: &Vec<(Vec<String>, V)>)
        requires
            self.wf(),
        ensures
            keys_unique(r@),
            entries_map(r@) == self.view(),
    {
        &self.entries
    }

    /// The number of keys held.
    pub fn len(&self) -> (r: usize)
        requires
            self.wf(),
        ensures
            r == self.view().len(),
    {
        proof {
            self.lemma_len();
        }
        self.entries.len()
    }

    proof fn lemma_len(&self)
        requires
            self.wf(),
        ensures
            self.view().len() == self.entries@.len(),
            self.view().dom().finite(),
    {
        lemma_unique_len(self.entries@);
    }
}

proof fn lemma_unique_len<V>(s: Seq<(Vec<String>, V)>)
    requires
        keys_unique(s),
    ensures
        entries_map(s).dom().finite(),
        entries_map(s).len() == s.len(),
    decreases s.len(),
{
    if s.len() > 0 {
        let t = s.drop_last();
        assert(keys_unique(t));
        lemma_unique_len(t);
        assert forall|j: int| 0 <= j < t.len() implies key_view(#[trigger] t[j].0@) != key_view(
            s.last().0@,
        ) by {
            assert(t[j] == s[j]);
        }
        lemma_absent_key(t, key_view(s.last().0@));
    }
}

} // verus!
