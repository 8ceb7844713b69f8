use crate::compact::CompactId;
use crate::exguid::{CellId, ExGuid};
use vstd::prelude::*;

verus! {

/// Entry `i` of `s` is the only one for `cid`.
pub open spec fn is_sole<T>(s: Seq<(CompactId, T)>, cid: CompactId, i: int) -> bool {
    &&& 0 <= i < s.len()
    &&& s[i].0 == cid
    &&& forall|j: int| 0 <= j < s.len() && j != i ==> #[trigger] s[j].0 != cid
}

/// The position of the only entry of `s` for `cid`, if exactly one entry
/// is for `cid`.
pub open spec fn sole_position<T>(s: Seq<(CompactId, T)>, cid: CompactId) -> Option<int> {
    if exists|i: int| is_sole(s, cid, i) {
        Some(choose|i: int| is_sole(s, cid, i))
    } else {
        None
    }
}

/// What the table `s` maps `cid`, looked up at table position `index`, to:
/// the value of the only entry for `cid` if there is one; otherwise the
/// value at `index`, if that entry is for `cid`.
pub open spec fn table_lookup<T>(s: Seq<(CompactId, T)>, index: int, cid: CompactId) -> Option<T> {
    match sole_position(s, cid) {
        Some(i) => Some(s[i].1),
        None => if 0 <= index < s.len() && s[index].0 == cid {
            Some(s[index].1)
        } else {
            None
        },
    }
}

/// The ID mapping table of an object in a FSSHTTPB package.
///
/// A compact ID may stand for several extended GUIDs (or cells); the entry
/// at the table position of the lookup then decides.
///
/// See [MS-ONESTORE] 2.7.8.
#[derive(Debug)]
pub struct MappingTable {
    objects: Vec<(CompactId, ExGuid)>,
    object_spaces: Vec<(CompactId, CellId)>,
}

/// An entry that is the only one for its compact ID is the sole position.
proof fn lemma_sole<T>(s: Seq<(CompactId, T)>, cid: CompactId, f: int)
    requires
        is_sole(s, cid, f),
    ensures
        sole_position(s, cid) == Some(f),
{
    let i = choose|i: int| is_sole(s, cid, i);
    if i != f {
        assert(s[f].0 == cid);
    }
}

/// Two entries for one compact ID leave it without a sole position.
proof fn lemma_not_sole<T>(s: Seq<(CompactId, T)>, cid: CompactId, a: int, b: int)
    requires
        0 <= a < s.len(),
        0 <= b < s.len(),
        a != b,
        s[a].0 == cid,
        s[b].0 == cid,
    ensures
        sole_position(s, cid) is None,
{
    if exists|i: int| is_sole(s, cid, i) {
        let i = choose|i: int| is_sole(s, cid, i);
        if i == a {
            assert(s[b].0 != cid);
        } else {
            assert(s[a].0 != cid);
        }
    }
}

/// The entry that `s` holds for `cid`, looked up at `index`.
fn get<T: Copy>(s: &Vec<(CompactId, T)>, index: usize, cid: CompactId) -> (r: Option<T>)
    ensures
        r == table_lookup(s@, index as int, cid),
{
    let mut first: Option<usize> = None;
    let mut second: Option<usize> = None;
    let mut k: usize = 0;
    while k < s.len()
        invariant
            k <= s@.len(),
            match first {
                None => second is None && forall|j: int| 0 <= j < k ==> #[trigger] s@[j].0 != cid,
                Some(f) => f < k && s@[f as int].0 == cid && match second {
                    None => forall|j: int| 0 <= j < k && j != f ==> #[trigger] s@[j].0 != cid,
                    Some(g) => g < k && g != f && s@[g as int].0 == cid,
                },
            },
        decreases s@.len() - k,
    {
        if s[k].0 == cid {
            if first.is_none() {
                first = Some(k);
            } else if second.is_none() {
                second = Some(k);
            }
        }
        k = k + 1;
    }
    match (first, second) {
        (Some(f), None) => {
            proof {
                lemma_sole(s@, cid, f as int);
            }
            Some(s[f].1)
        },
        _ => {
            proof {
                match (first, second) {
                    (Some(f), Some(g)) => lemma_not_sole(s@, cid, f as int, g as int),
                    _ => {},
                }
            }
            if index < s.len() && s[index].0 == cid {
                Some(s[index].1)
            } else {
                None
            }
        },
    }
}

impl MappingTable {
    /// The entries for objects, in table order.
    pub closed spec fn object_entries(&self) -> Seq<(CompactId, ExGuid)> {
        self.objects@
    }

    /// The entries for object spaces, in table order.
    pub closed spec fn object_space_entries(&self) -> Seq<(CompactId, CellId)> {
        self.object_spaces@
    }

    /// A table with the given entries, the position of each entry in its
    /// sequence being its table position.
    pub fn from_entries(objects: Vec<(CompactId, ExGuid)>, object_spaces: Vec<(CompactId, CellId)>) -> (t:
        MappingTable)
        ensures
            t.object_entries() == objects@,
            t.object_space_entries() == object_spaces@,
    {
        MappingTable { objects, object_spaces }
    }
}

impl crate::onestore::MappingTable for MappingTable {
    open spec fn spec_resolve_id(&self, index: usize, cid: CompactId) -> Option<ExGuid> {
        table_lookup(self.object_entries(), index as int, cid)
    }

    open spec fn spec_get_object_space(&self, index: usize, cid: CompactId) -> Option<CellId> {
        table_lookup(self.object_space_entries(), index as int, cid)
    }

    fn resolve_id(&self, index: usize, cid: &CompactId) -> (r: Option<ExGuid>) {
        get(&self.objects, index, *cid)
    }

    fn get_object_space(&self, index: usize, cid: &CompactId) -> (r: Option<CellId>) {
        get(&self.object_spaces, index, *cid)
    }
}

/// A compact ID with a single entry resolves to it at every table
/// position.
pub proof fn law_single_entry_at_every_index<T>(s: Seq<(CompactId, T)>, cid: CompactId, p: int, index: int)
    requires
        is_sole(s, cid, p),
    ensures
        table_lookup(s, index, cid) == Some(s[p].1),
{
    lemma_sole(s, cid, p);
}

/// A compact ID with several entries resolves to the entry at the table
/// position of the lookup, or to nothing when that entry is for another ID.
pub proof fn law_multiple_entries_by_index<T>(
    s: Seq<(CompactId, T)>,
    cid: CompactId,
    a: int,
    b: int,
    index: int,
)
    requires
        0 <= a < s.len(),
        0 <= b < s.len(),
        a != b,
        s[a].0 == cid,
        s[b].0 == cid,
    ensures
        table_lookup(s, index, cid) == (if 0 <= index < s.len() && s[index].0 == cid {
            Some(s[index].1)
        } else {
            None
        }),
{
    lemma_not_sole(s, cid, a, b);
}

/// A compact ID that no entry is for resolves to nothing, at every table
/// position.
pub proof fn law_unknown_id_resolves_to_nothing<T>(s: Seq<(CompactId, T)>, cid: CompactId, index: int)
    requires
        forall|j: int| 0 <= j < s.len() ==> #[trigger] s[j].0 != cid,
    ensures
        table_lookup(s, index, cid) is None,
{
    if exists|i: int| is_sole(s, cid, i) {
        let i = choose|i: int| is_sole(s, cid, i);
        assert(s[i].0 != cid);
    }
}

/// The positions of the entries among the first `k` of `s` that are for
/// `cid`, in table order.
pub open spec fn positions_for<T>(s: Seq<(CompactId, T)>, cid: CompactId, k: int) -> Seq<int>
    decreases k,
{
    if k <= 0 {
        seq![]
    } else if s[k - 1].0 == cid {
        positions_for(s, cid, k - 1).push(k - 1)
    } else {
        positions_for(s, cid, k - 1)
    }
}

/// The lookup rule of a mapping table in the words of its documentation:
/// with `m` the positions of the entries for `cid`, a single entry wins,
/// and otherwise the entry whose position is `index`, if it is among them.
pub open spec fn lookup_by_positions<T>(s: Seq<(CompactId, T)>, index: int, cid: CompactId) -> Option<T> {
    let m = positions_for(s, cid, s.len() as int);
    if m.len() == 1 {
        Some(s[m[0]].1)
    } else if m.contains(index) {
        Some(s[index].1)
    } else {
        None
    }
}

proof fn lemma_positions<T>(s: Seq<(CompactId, T)>, cid: CompactId, k: int)
    requires
        0 <= k <= s.len(),
    ensures
        forall|i: int|
            0 <= i < positions_for(s, cid, k).len() ==> 0 <= #[trigger] positions_for(s, cid, k)[i] < k
                && s[positions_for(s, cid, k)[i]].0 == cid,
        forall|j: int| 0 <= j < k && s[j].0 == cid ==> #[trigger] positions_for(s, cid, k).contains(j),
        forall|i: int, i2: int|
            0 <= i < i2 < positions_for(s, cid, k).len() ==> #[trigger] positions_for(s, cid, k)[i]
                < #[trigger] positions_for(s, cid, k)[i2],
    decreases k,
{
    if k > 0 {
        lemma_positions(s, cid, k - 1);
        let prev = positions_for(s, cid, k - 1);
        let cur = positions_for(s, cid, k);
        assert forall|j: int| 0 <= j < k && s[j].0 == cid implies #[trigger] cur.contains(j) by {
            if j < k - 1 {
                assert(prev.contains(j));
                let i = choose|i: int| 0 <= i < prev.len() && prev[i] == j;
                assert(cur[i] == j);
            } else {
                assert(cur[cur.len() - 1] == j);
            }
        }
    }
}

/// The lookup of a mapping table is the rule of its documentation (see
/// [`lookup_by_positions`]), for objects and for object spaces alike.
pub proof fn law_lookup_follows_the_documented_rule(t: MappingTable, index: usize, cid: CompactId)
    ensures
        crate::onestore::MappingTable::spec_resolve_id(&t, index, cid) == lookup_by_positions(
            t.object_entries(),
            index as int,
            cid,
        ),
        crate::onestore::MappingTable::spec_get_object_space(&t, index, cid) == lookup_by_positions(
            t.object_space_entries(),
            index as int,
            cid,
        ),
{
    lemma_lookup_by_positions(t.object_entries(), index as int, cid);
    lemma_lookup_by_positions(t.object_space_entries(), index as int, cid);
}

proof fn lemma_lookup_by_positions<T>(s: Seq<(CompactId, T)>, index: int, cid: CompactId)
    ensures
        table_lookup(s, index, cid) == lookup_by_positions(s, index, cid),
{
    let n = s.len() as int;
    lemma_positions(s, cid, n);
    let m = positions_for(s, cid, n);
    if m.len() == 1 {
        assert forall|j: int| 0 <= j < s.len() && j != m[0] implies #[trigger] s[j].0 != cid by {
            if s[j].0 == cid {
                assert(m.contains(j));
            }
        }
        lemma_sole(s, cid, m[0]);
    } else if m.len() >= 2 {
        assert(m[0] < m[1]);
        lemma_not_sole(s, cid, m[0], m[1]);
        if 0 <= index < n && s[index].0 == cid {
            assert(m.contains(index));
        }
    } else {
        if 0 <= index < n && s[index].0 == cid {
            assert(m.contains(index));
        }
        if exists|i: int| is_sole(s, cid, i) {
            let i = choose|i: int| is_sole(s, cid, i);
            assert(m.contains(i));
        }
    }
}

} // verus!
