use crate::exguid::ExGuid;
use vstd::prelude::*;

verus! {

/// The map that a sequence of entries describes; a later entry for a key
/// replaces an earlier one.
pub open spec fn entries_view<V: View>(s: Seq<(ExGuid, V)>) -> Map<ExGuid, V::V>
    decreases s.len(),
{
    if s.len() == 0 {
        Map::empty()
    } else {
        entries_view(s.drop_last()).insert(s.last().0, s.last().1@)
    }
}

/// No key occurs twice in `s`.
pub open spec fn keys_unique<V>(s: Seq<(ExGuid, V)>) -> bool {
    forall|i: int, j: int| 0 <= i < j < s.len() ==> s[i].0 != s[j].0
}

/// The position of `k` in `s`, when some entry has that key.
pub open spec fn position_of<V>(s: Seq<(ExGuid, V)>, k: ExGuid) -> Option<int>
    decreases s.len(),
{
    if s.len() == 0 {
        None
    } else if s.last().0 == k {
        Some(s.len() - 1)
    } else {
        position_of(s.drop_last(), k)
    }
}

/// The view of entries holds exactly their keys, each with the view of the
/// last value given for it.
pub proof fn lemma_entries_view<V: View>(s: Seq<(ExGuid, V)>, k: ExGuid)
    ensures
        entries_view(s).contains_key(k) <==> position_of(s, k) is Some,
        position_of(s, k) matches Some(p) ==> 0 <= p < s.len() && s[p].0 == k && entries_view(
            s,
        )[k] == s[p].1@,
        position_of(s, k) is None ==> forall|i: int| 0 <= i < s.len() ==> s[i].0 != k,
    decreases s.len(),
{
    if s.len() > 0 {
        lemma_entries_view(s.drop_last(), k);
        if position_of(s, k) is None {
            assert forall|i: int| 0 <= i < s.len() implies s[i].0 != k by {
                if i < s.len() - 1 {
                    assert(s[i] == s.drop_last()[i]);
                }
            }
        }
    }
}

/// With unique keys, the entry at position `i` is the one found for its key.
pub proof fn lemma_position_unique<V>(s: Seq<(ExGuid, V)>, i: int)
    requires
        keys_unique(s),
        0 <= i < s.len(),
    ensures
        position_of(s, s[i].0) == Some(i),
    decreases s.len(),
{
    if i < s.len() - 1 {
        lemma_position_unique(s.drop_last(), i);
    }
}

/// A map keyed by extended GUIDs that remembers the order in which keys
/// were first added.
#[derive(Debug)]
pub struct ExGuidMap<V> {
    entries: Vec<(ExGuid, V)>,
}

impl<V: View> View for ExGuidMap<V> {
    type V = Map<ExGuid, V::V>;

    closed spec fn view(&self) -> Map<ExGuid, V::V> {
        entries_view(self.entries@)
    }
}

impl<V: View> ExGuidMap<V> {
    /// The entries, in the order in which their keys were first added.
    pub closed spec fn entries(&self) -> Seq<(ExGuid, V)> {
        self.entries@
    }

    /// No key occurs twice.
    pub closed spec fn wf(&self) -> bool {
        keys_unique(self.entries@)
    }

    /// The view is the map that the entries describe.
    pub proof fn lemma_view(&self, k: ExGuid)
        requires
            self.wf(),
        ensures
            self@.contains_key(k) <==> position_of(self.entries(), k) is Some,
            position_of(self.entries(), k) matches Some(p) ==> 0 <= p < self.entries().len()
                && self.entries()[p].0 == k && self@[k] == self.entries()[p].1@,
            forall|i: int| 0 <= i < self.entries().len() ==> position_of(self.entries(), #[trigger] self.entries()[i].0) == Some(i),
    {
        lemma_entries_view(self.entries@, k);
        assert forall|i: int| 0 <= i < self.entries().len() implies position_of(self.entries(), #[trigger] self.entries()[i].0) == Some(i) by {
            lemma_position_unique(self.entries@, i);
        }
    }

    /// The view is the map of the entries.
    pub proof fn lemma_view_entries(&self)
        ensures
            self@ == entries_view(self.entries()),
    {
    }

    /// The empty map.
    pub fn new() -> (m: ExGuidMap<V>)
        ensures
            m.wf(),
            m@ == Map::<ExGuid, V::V>::empty(),
            m.entries().len() == 0,
    {
        ExGuidMap { entries: Vec::new() }
    }

    /// The number of keys.
    pub fn len(&self) -> (n: usize)
        ensures
            n == self.entries().len(),
    {
        self.entries.len()
    }

    /// The key and value at position `i` of the entries.
    pub fn entry_at(&self, i: usize) -> (r: (&ExGuid, &V))
        requires
            i < self.entries().len(),
        ensures
            *r.0 == self.entries()[i as int].0,
            *r.1 == self.entries()[i as int].1,
    {
        let e = &self.entries[i];
        (&e.0, &e.1)
    }

    /// The position of `key` among the entries.
    fn find(&self, key: &ExGuid) -> (r: Option<usize>)
        ensures
            r matches Some(p) ==> position_of(self.entries(), *key) == Some(p as int),
            r is None ==> position_of(self.entries(), *key) is None,
    {
        let mut i = self.entries.len();
        proof {
            assert(self.entries@.take(i as int) =~= self.entries@);
        }
        while i > 0
            invariant
                i <= self.entries@.len(),
                position_of(self.entries@, *key) == position_of(self.entries@.take(i as int), *key),
            decreases i,
        {
            proof {
                assert(self.entries@.take(i as int).drop_last() =~= self.entries@.take(i - 1));
            }
            if self.entries[i - 1].0 == *key {
                return Some(i - 1);
            }
            i = i - 1;
        }
        None
    }

    /// The value of `key`, if present.
    pub fn get(&self, key: &ExGuid) -> (r: Option<&V>)
        requires
            self.wf(),
        ensures
            self@.contains_key(*key) ==> (r matches Some(v) && v@ == self@[*key] && Some(*v) == (
            match position_of(self.entries(), *key) {
                Some(p) => Some(self.entries()[p].1),
                None => None,
            })),
            !self@.contains_key(*key) ==> r is None,
    {
        proof {
            self.lemma_view(*key);
        }
        match self.find(key) {
            Some(p) => Some(&self.entries[p].1),
            None => None,
        }
    }

    /// Whether `key` is present.
    pub fn contains_key(&self, key: &ExGuid) -> (b: bool)
        requires
            self.wf(),
        ensures
            b == self@.contains_key(*key),
    {
        proof {
            self.lemma_view(*key);
        }
        self.find(key).is_some()
    }

    /// Sets the value of `key`, returning the value it replaces.
    ///
    /// A new key goes after every existing one; an existing key keeps its
    /// position.
    pub fn insert(&mut self, key: ExGuid, value: V) -> (r: Option<V>)
        requires
            old(self).wf(),
        ensures
            final(self).wf(),
            final(self)@ == old(self)@.insert(key, value@),
            old(self)@.contains_key(key) ==> (r matches Some(v) && v@ == old(self)@[key]),
            !old(self)@.contains_key(key) ==> r is None,
            !old(self)@.contains_key(key) ==> final(self).entries() == old(self).entries().push((key, value)),
            old(self)@.contains_key(key) ==> final(self).entries().len() == old(self).entries().len(),
    {
        proof {
            self.lemma_view(key);
        }
        match self.find(&key) {
            Some(p) => {
                let ghost old_entries = self.entries@;
                let (_, previous) = self.entries.remove(p);
                self.entries.insert(p, (key, value));
                proof {
                    assert(self.entries@ =~= old_entries.update(p as int, (key, value)));
                    lemma_update_view(old_entries, p as int, key, value);
                }
                Some(previous)
            },
            None => {
                let ghost old_entries = self.entries@;
                self.entries.push((key, value));
                proof {
                    assert(self.entries@.drop_last() =~= old_entries);
                    lemma_entries_view(old_entries, key);
                }
                None
            },
        }
    }

    /// Adds `key` with `value` unless `key` is already present.
    pub fn insert_if_absent(&mut self, key: ExGuid, value: V)
        requires
            old(self).wf(),
        ensures
            final(self).wf(),
            old(self)@.contains_key(key) ==> final(self)@ == old(self)@,
            !old(self)@.contains_key(key) ==> final(self)@ == old(self)@.insert(key, value@),
    {
        if !self.contains_key(&key) {
            proof {
                self.lemma_view(key);
            }
            let ghost old_entries = self.entries@;
            self.entries.push((key, value));
            proof {
                assert(self.entries@.drop_last() =~= old_entries);
            }
        }
    }

    /// Removes every key.
    pub fn clear(&mut self)
        ensures
            final(self).wf(),
            final(self)@ == Map::<ExGuid, V::V>::empty(),
            final(self).entries().len() == 0,
    {
        self.entries.clear();
    }
}

/// Replacing the value at a position of unique entries changes the view at
/// that key only.
proof fn lemma_update_view<V: View>(s: Seq<(ExGuid, V)>, p: int, key: ExGuid, value: V)
    requires
        keys_unique(s),
        0 <= p < s.len(),
        s[p].0 == key,
    ensures
        keys_unique(s.update(p, (key, value))),
        entries_view(s.update(p, (key, value))) == entries_view(s).insert(key, value@),
    decreases s.len(),
{
    let t = s.update(p, (key, value));
    if p == s.len() - 1 {
        assert(t.drop_last() =~= s.drop_last());
        lemma_entries_view(s.drop_last(), key);
        assert(entries_view(t) =~= entries_view(s).insert(key, value@));
    } else {
        assert(t.drop_last() =~= s.drop_last().update(p, (key, value)));
        lemma_update_view(s.drop_last(), p, key, value);
        assert(entries_view(t) =~= entries_view(s).insert(key, value@));
    }
}

} // verus!
