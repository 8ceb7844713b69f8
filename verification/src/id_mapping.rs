use crate::compact::CompactId;
use crate::errors::{Error, ErrorKind, Result};
use crate::exguid::ExGuid;
use crate::guid::Guid;
use std::collections::HashMap;
use vstd::prelude::*;

verus! {

broadcast use vstd::std_specs::hash::group_hash_axioms;

/// A map from the indices of a global identification table to GUIDs.
///
/// Later mappings for an index replace earlier ones.
#[derive(Debug)]
pub struct IdMapping {
    map: HashMap<u32, Guid>,
}

impl View for IdMapping {
    type V = Map<u32, Guid>;

    /// The GUID that each mapped index stands for.
    closed spec fn view(&self) -> Map<u32, Guid> {
        self.map@
    }
}

impl IdMapping {
    /// The mapping that maps no index.
    pub fn new() -> (m: IdMapping)
        ensures
            m@ == Map::<u32, Guid>::empty(),
    {
        IdMapping { map: HashMap::new() }
    }

    /// Maps `index` to `guid`, replacing any earlier mapping of `index`.
    pub fn add_mapping(&mut self, index: u32, guid: Guid)
        ensures
            final(self)@ == old(self)@.insert(index, guid),
    {
        self.map.insert(index, guid);
    }

    /// The GUID mapped to `index`, if any.
    pub fn guid_for_index(&self, index: u32) -> (r: Option<Guid>)
        ensures
            r == self@.get(index),
    {
        match self.map.get(&index) {
            Some(g) => Some(*g),
            None => None,
        }
    }

    /// Adds every mapping of `other`; where both map an index, `other` wins.
    pub fn merge(&mut self, other: &IdMapping)
        ensures
            final(self)@ == old(self)@.union_prefer_right(other@),
    {
        let ghost old_map = self.map@;
        let ghost m = other.map@;
        broadcast use lemma_entry_gives_its_key;
        for (k, v) in it: other.map.iter()
            invariant
                m == other.map@,
                forall|i: int|
                    0 <= i < it.seq().len() ==> m.contains_key(*#[trigger] it.seq()[i].0)
                        && m[*it.seq()[i].0] == *it.seq()[i].1,
                forall|key: u32| #[trigger] m.contains_key(key) ==> exists|i: int|
                    0 <= i < it.seq().len() && *#[trigger] it.seq()[i].0 == key,
                forall|key: u32|
                    #[trigger] self.map@.contains_key(key) <==> (old_map.contains_key(key) || exists|
                        i: int,
                    | 0 <= i < it.index() && *#[trigger] it.seq()[i].0 == key),
                forall|key: u32|
                    #[trigger] self.map@.contains_key(key) ==> self.map@[key] == (if exists|i: int|
                        0 <= i < it.index() && *#[trigger] it.seq()[i].0 == key {
                        m[key]
                    } else {
                        old_map[key]
                    }),
        {
            self.map.insert(*k, *v);
        }
        proof {
            assert(self.map@ =~= old_map.union_prefer_right(m));
        }
    }

    /// A copy of this mapping.
    pub fn duplicate(&self) -> (r: IdMapping)
        ensures
            r@ == self@,
    {
        IdMapping { map: self.map.clone() }
    }

    /// The extended GUID that a compact ID stands for: the GUID mapped to its
    /// index, with its value.
    pub fn resolve_id(&self, id: &CompactId) -> (r: Result<ExGuid>)
        ensures
            match self@.get(id.guid_index) {
                Some(g) => r == Ok::<ExGuid, Error>(ExGuid { guid: g, value: id.n as u32 }),
                None => r == Err::<ExGuid, Error>(Error { kind: ErrorKind::UnresolvedCompactId { guid_index: id.guid_index } }),
            },
    {
        match self.guid_for_index(id.guid_index) {
            Some(guid) => Ok(ExGuid::from_guid(guid, id.n as u32)),
            None => Err(Error::new(ErrorKind::UnresolvedCompactId { guid_index: id.guid_index })),
        }
    }
}

/// An entry found among the entries of a map walk gives its key a
/// position there.
broadcast proof fn lemma_entry_gives_its_key(s: Seq<(&u32, &Guid)>, key: u32, g: Guid)
    ensures
        #[trigger] s.contains((&key, &g)) ==> exists|i: int| 0 <= i < s.len() && *#[trigger] s[i].0 == key,
{
    if s.contains((&key, &g)) {
        let i = choose|i: int| 0 <= i < s.len() && s[i] == (&key, &g);
        assert(*s[i].0 == key);
    }
}

/// A lookup after adding a mapping finds the GUID just added, and every
/// other index keeps its GUID.
pub proof fn law_read_after_add(m: Map<u32, Guid>, index: u32, guid: Guid, other: u32)
    ensures
        m.insert(index, guid).get(index) == Some(guid),
        other != index ==> m.insert(index, guid).get(other) == m.get(other),
{
}

/// After a merge, an index mapped by the merged table has its GUID there,
/// and any other index keeps its GUID.
pub proof fn law_merge_prefers_merged(m: Map<u32, Guid>, other: Map<u32, Guid>, index: u32)
    ensures
        other.contains_key(index) ==> m.union_prefer_right(other).get(index) == other.get(index),
        !other.contains_key(index) ==> m.union_prefer_right(other).get(index) == m.get(index),
{
}

} // verus!
