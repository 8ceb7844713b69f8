use crate::compact::CompactId;
use crate::errors::{Error, ErrorKind, Result};
use crate::exguid::ExGuid;
use crate::file_node::{FileNodeData, FileNodeDataIterator, GlobalIdTableEntry3FNDX};
use crate::guid::Guid;
use crate::id_mapping::IdMapping;
use vstd::prelude::*;

verus! {

/// The largest index, plus one, that a compact ID can name (24 bits).
pub const COMPACT_ID_INDEX_LIMIT: u32 = 0x00FF_FFFF;

/// The mapping of the dependency revision's table, if there is one.
pub open spec fn parent_view(parent: Option<&IdMapping>) -> Option<Map<u32, Guid>> {
    match parent {
        Some(p) => Some(p@),
        None => None,
    }
}

/// Every index of `from .. from + n` is mapped by `p`.
pub open spec fn all_mapped(p: Map<u32, Guid>, from: u32, n: int) -> bool {
    forall|k: int| 0 <= k < n ==> #[trigger] p.contains_key((from + k) as u32)
}

/// The mappings that copying `count` indices from `from` in `p` to `to`
/// produces.
pub open spec fn copied_range(p: Map<u32, Guid>, from: u32, to: u32, count: int) -> Map<
    u32,
    Guid,
> {
    Map::new(|d: u32| to <= d < to + count, |d: u32| p[(from + (d - to)) as u32])
}

/// The offset of the first index of `from .. from + count` that `p` does
/// not map.
pub open spec fn first_missing_offset(p: Map<u32, Guid>, from: u32, count: int) -> int {
    choose|k: int| 0 <= k < count && all_mapped(p, from, k) && !p.contains_key((from + k) as u32)
}

/// What copying the range of `entry` from the dependency table `parent`
/// makes of the mapping `acc`.
///
/// See [MS-ONESTORE] 2.5.12.
pub open spec fn copy_range_spec(
    entry: GlobalIdTableEntry3FNDX,
    parent: Option<Map<u32, Guid>>,
    acc: Map<u32, Guid>,
) -> Result<Map<u32, Guid>> {
    let from = entry.i_index_copy_from_start;
    let count = entry.c_entries_to_copy;
    let to = entry.i_index_copy_to_start;
    match parent {
        None => Err(Error { kind: ErrorKind::CopyWithoutDependencyTable }),
        Some(p) => if count == 0 {
            Ok(acc)
        } else if from + (count - 1) > u32::MAX {
            Err(Error { kind: ErrorKind::CopySourceOverflow { start: from, count } })
        } else if to + (count - 1) >= COMPACT_ID_INDEX_LIMIT {
            Err(Error { kind: ErrorKind::CopyDestinationOutOfRange { start: to, count } })
        } else if all_mapped(p, from, count as int) {
            Ok(acc.union_prefer_right(copied_range(p, from, to, count as int)))
        } else {
            Err(
                Error {
                    kind: ErrorKind::MissingCopySource {
                        index: (from + first_missing_offset(p, from, count as int)) as u32,
                    },
                },
            )
        },
    }
}

/// What the entries of a global identification table, from node `i` of
/// `nodes` up to and including its end node, make of the mapping `acc`,
/// with the position after the table.
///
/// See [MS-ONESTORE] 2.1.3 and 2.5.9 to 2.5.12.
pub open spec fn id_table_entries_spec(
    nodes: Seq<FileNodeData>,
    i: int,
    parent: Option<Map<u32, Guid>>,
    acc: Map<u32, Guid>,
) -> Result<(Map<u32, Guid>, int)>
    decreases nodes.len() - i,
{
    if i < 0 || i >= nodes.len() {
        Ok((acc, i))
    } else {
        match nodes[i] {
            FileNodeData::GlobalIdTableEndFNDX => Ok((acc, i + 1)),
            FileNodeData::GlobalIdTableEntryFNDX { index, guid } => id_table_entries_spec(
                nodes,
                i + 1,
                parent,
                acc.insert(index, guid),
            ),
            FileNodeData::GlobalIdTableEntry2FNDX { i_index_map_from, i_index_map_to } => {
                match parent {
                    Some(p) if p.contains_key(i_index_map_from) => id_table_entries_spec(
                        nodes,
                        i + 1,
                        parent,
                        acc.insert(i_index_map_to, p[i_index_map_from]),
                    ),
                    _ => Err(
                        Error { kind: ErrorKind::MissingDependencyMapping { index: i_index_map_from } },
                    ),
                }
            },
            FileNodeData::GlobalIdTableEntry3FNDX(entry) => match copy_range_spec(
                entry,
                parent,
                acc,
            ) {
                Ok(m) => id_table_entries_spec(nodes, i + 1, parent, m),
                Err(e) => Err(e),
            },
            FileNodeData::UnknownNode => id_table_entries_spec(nodes, i + 1, parent, acc),
            _ => Err(Error { kind: ErrorKind::UnexpectedGlobalIdTableNode }),
        }
    }
}

/// Reading the entries of a table never moves backwards.
pub proof fn lemma_id_table_entries_end(
    nodes: Seq<FileNodeData>,
    i: int,
    parent: Option<Map<u32, Guid>>,
    acc: Map<u32, Guid>,
)
    ensures
        id_table_entries_spec(nodes, i, parent, acc) matches Ok((_, end)) ==> end >= i && (i <= nodes.len() ==> end <= nodes.len()),
    decreases nodes.len() - i,
{
    if 0 <= i < nodes.len() {
        match nodes[i] {
            FileNodeData::GlobalIdTableEntryFNDX { index, guid } => {
                lemma_id_table_entries_end(nodes, i + 1, parent, acc.insert(index, guid));
            },
            FileNodeData::GlobalIdTableEntry2FNDX { i_index_map_from, i_index_map_to } => {
                match parent {
                    Some(p) => {
                        if p.contains_key(i_index_map_from) {
                            lemma_id_table_entries_end(
                                nodes,
                                i + 1,
                                parent,
                                acc.insert(i_index_map_to, p[i_index_map_from]),
                            );
                        }
                    },
                    None => {},
                }
            },
            FileNodeData::GlobalIdTableEntry3FNDX(entry) => {
                match copy_range_spec(entry, parent, acc) {
                    Ok(m) => lemma_id_table_entries_end(nodes, i + 1, parent, m),
                    Err(_) => {},
                }
            },
            FileNodeData::UnknownNode => lemma_id_table_entries_end(nodes, i + 1, parent, acc),
            _ => {},
        }
    }
}

/// Whether `node` starts a global identification table.
pub open spec fn starts_id_table(node: FileNodeData) -> bool {
    node is GlobalIdTableStart2FND || node is GlobalIdTableStartFNDX
}

/// Maps the compact IDs of a region of a OneStore file to extended GUIDs.
///
/// A table may inherit mappings from the table of the revision that its
/// revision depends on; these are resolved while the table is read, so
/// that the mapping it holds is complete.
///
/// See [MS-ONESTORE] 2.1.3.
#[derive(Debug)]
pub struct GlobalIdTable {
    pub id_map: IdMapping,
}

impl GlobalIdTable {
    /// A table that maps nothing.
    pub fn new() -> (t: GlobalIdTable)
        ensures
            t.id_map@ == Map::<u32, Guid>::empty(),
    {
        GlobalIdTable { id_map: IdMapping::new() }
    }

    /// Reads a global identification table if one starts under the cursor;
    /// leaves the cursor where it is otherwise.
    pub fn try_parse(iterator: &mut FileNodeDataIterator, parent: Option<&IdMapping>) -> (r: Result<
        Option<GlobalIdTable>,
    >)
        requires
            old(iterator).wf(),
        ensures
            final(iterator).wf(),
            final(iterator).nodes() == old(iterator).nodes(),
            match old(iterator).spec_peek() {
                Some(n) if starts_id_table(n) => match id_table_entries_spec(
                    old(iterator).nodes(),
                    old(iterator).index() + 1,
                    parent_view(parent),
                    Map::empty(),
                ) {
                    Ok((m, end)) => r matches Ok(Some(t)) && t.id_map@ == m && final(iterator).index() == end,
                    Err(e) => r == Err::<Option<GlobalIdTable>, Error>(e),
                },
                _ => r matches Ok(None) && final(iterator).index() == old(iterator).index(),
            },
    {
        let is_start = match iterator.peek() {
            Some(FileNodeData::GlobalIdTableStart2FND) => true,
            Some(FileNodeData::GlobalIdTableStartFNDX { .. }) => true,
            _ => false,
        };
        if is_start {
            let t = GlobalIdTable::parse(iterator, parent)?;
            Ok(Some(t))
        } else {
            Ok(None)
        }
    }

    /// Reads the global identification table that starts under the cursor.
    fn parse(iterator: &mut FileNodeDataIterator, parent: Option<&IdMapping>) -> (r: Result<
        GlobalIdTable,
    >)
        requires
            old(iterator).wf(),
            old(iterator).index() < old(iterator).nodes().len(),
        ensures
            final(iterator).wf(),
            final(iterator).nodes() == old(iterator).nodes(),
            match id_table_entries_spec(
                old(iterator).nodes(),
                old(iterator).index() + 1,
                parent_view(parent),
                Map::empty(),
            ) {
                Ok((m, end)) => r matches Ok(t) && t.id_map@ == m && final(iterator).index() == end,
                Err(e) => r == Err::<GlobalIdTable, Error>(e),
            },
    {
        let ghost nodes = iterator.nodes();
        iterator.next();
        let mut id_map = IdMapping::new();
        let ghost start = iterator.index();
        loop
            invariant_except_break
                iterator.wf(),
                iterator.nodes() == nodes,
                nodes == old(iterator).nodes(),
                start == old(iterator).index() + 1,
                0 <= start <= iterator.index(),
                id_table_entries_spec(nodes, start, parent_view(parent), Map::empty())
                    == id_table_entries_spec(nodes, iterator.index(), parent_view(parent), id_map@),
            ensures
                iterator.wf(),
                iterator.nodes() == nodes,
                nodes == old(iterator).nodes(),
                start == old(iterator).index() + 1,
                id_table_entries_spec(nodes, start, parent_view(parent), Map::empty()) == Ok::<
                    (Map<u32, Guid>, int),
                    Error,
                >((id_map@, iterator.index())),
            decreases nodes.len() - iterator.index(),
        {
            let ghost i = iterator.index();
            let node = match iterator.next() {
                Some(n) => n,
                None => {
                    break;
                },
            };
            match node {
                FileNodeData::GlobalIdTableEndFNDX => {
                    break;
                },
                FileNodeData::GlobalIdTableEntryFNDX { index, guid } => {
                    id_map.add_mapping(*index, *guid);
                },
                FileNodeData::GlobalIdTableEntry2FNDX { i_index_map_from, i_index_map_to } => {
                    let inherited = match parent {
                        Some(p) => p.guid_for_index(*i_index_map_from),
                        None => None,
                    };
                    match inherited {
                        Some(guid) => id_map.add_mapping(*i_index_map_to, guid),
                        None => {
                            return Err(
                                Error::new(
                                    ErrorKind::MissingDependencyMapping { index: *i_index_map_from },
                                ),
                            );
                        },
                    }
                },
                FileNodeData::GlobalIdTableEntry3FNDX(entry) => {
                    copy_parent_range(entry, parent, &mut id_map)?;
                },
                FileNodeData::UnknownNode => {},
                _ => {
                    return Err(Error::new(ErrorKind::UnexpectedGlobalIdTableNode));
                },
            }
        }
        Ok(GlobalIdTable { id_map })
    }

    /// The extended GUID that a compact ID stands for in this table.
    pub fn resolve_id(&self, id: &CompactId) -> (r: Result<ExGuid>)
        ensures
            match self.id_map@.get(id.guid_index) {
                Some(g) => r == Ok::<ExGuid, Error>(ExGuid { guid: g, value: id.n as u32 }),
                None => r == Err::<ExGuid, Error>(
                    Error { kind: ErrorKind::UnresolvedCompactId { guid_index: id.guid_index } },
                ),
            },
    {
        self.id_map.resolve_id(id)
    }

    /// A copy of this table.
    pub fn duplicate(&self) -> (t: GlobalIdTable)
        ensures
            t.id_map@ == self.id_map@,
    {
        GlobalIdTable { id_map: self.id_map.duplicate() }
    }
}

/// Copies the range of indices that `entry` names from the table of the
/// dependency revision into `id_map`.
///
/// On an error partway through a range, the mappings of the indices before
/// the missing one have been added.
pub fn copy_parent_range(
    entry: &GlobalIdTableEntry3FNDX,
    parent: Option<&IdMapping>,
    id_map: &mut IdMapping,
) -> (r: Result<()>)
    ensures
        match copy_range_spec(*entry, parent_view(parent), old(id_map)@) {
            Ok(m) => r is Ok && final(id_map)@ == m,
            Err(e) => r == Err::<(), Error>(e),
        },
        r is Err && entry.c_entries_to_copy > 0 && parent is Some ==> ({
            let from = entry.i_index_copy_from_start;
            let to = entry.i_index_copy_to_start;
            let count = entry.c_entries_to_copy;
            r == Err::<(), Error>(
                Error { kind: ErrorKind::MissingCopySource { index: (from + first_missing_offset(parent->0@, from, count as int)) as u32 } },
            ) ==> final(id_map)@ == old(id_map)@.union_prefer_right(
                copied_range(parent->0@, from, to, first_missing_offset(parent->0@, from, count as int)),
            )
        }),
        r matches Err(e) && (e.kind is CopySourceOverflow || e.kind is CopyDestinationOutOfRange
            || e.kind is CopyWithoutDependencyTable) ==> final(id_map)@ == old(id_map)@,
{
    let p = match parent {
        Some(p) => p,
        None => {
            return Err(Error::new(ErrorKind::CopyWithoutDependencyTable));
        },
    };
    let from = entry.i_index_copy_from_start;
    let count = entry.c_entries_to_copy;
    let to = entry.i_index_copy_to_start;
    if count == 0 {
        return Ok(());
    }
    let last_offset = count - 1;
    if from.checked_add(last_offset).is_none() {
        return Err(Error::new(ErrorKind::CopySourceOverflow { start: from, count }));
    }
    let in_range = match to.checked_add(last_offset) {
        Some(d) => d < COMPACT_ID_INDEX_LIMIT,
        None => false,
    };
    if !in_range {
        return Err(Error::new(ErrorKind::CopyDestinationOutOfRange { start: to, count }));
    }
    let ghost old_map = id_map@;
    let ghost pm = p@;
    let mut offset: u32 = 0;
    proof {
        assert(copied_range(pm, from, to, 0) =~= Map::empty());
        assert(old_map.union_prefer_right(Map::empty()) =~= old_map);
    }
    while offset < count
        invariant
            pm == p@,
            parent == Some(p),
            from == entry.i_index_copy_from_start,
            count == entry.c_entries_to_copy,
            to == entry.i_index_copy_to_start,
            old_map == old(id_map)@,
            from + (count - 1) <= u32::MAX,
            to + (count - 1) < COMPACT_ID_INDEX_LIMIT,
            offset <= count,
            all_mapped(pm, from, offset as int),
            id_map@ == old_map.union_prefer_right(copied_range(pm, from, to, offset as int)),
        decreases count - offset,
    {
        let source_index = from + offset;
        let destination_index = to + offset;
        match p.guid_for_index(source_index) {
            Some(guid) => {
                id_map.add_mapping(destination_index, guid);
                proof {
                    assert(copied_range(pm, from, to, offset + 1) =~= copied_range(
                        pm,
                        from,
                        to,
                        offset as int,
                    ).insert(destination_index, guid));
                    assert(old_map.union_prefer_right(copied_range(pm, from, to, offset + 1))
                        =~= old_map.union_prefer_right(
                        copied_range(pm, from, to, offset as int),
                    ).insert(destination_index, guid));
                    assert forall|k: int| 0 <= k < offset + 1 implies #[trigger] pm.contains_key(
                        (from + k) as u32,
                    ) by {
                        if k < offset {
                            assert(pm.contains_key((from + k) as u32));
                        }
                    }
                }
            },
            None => {
                proof {
                    assert(0 <= offset < count && all_mapped(pm, from, offset as int)
                        && !pm.contains_key((from + offset) as u32));
                    let k0 = first_missing_offset(pm, from, count as int);
                    assert(0 <= k0 < count && all_mapped(pm, from, k0) && !pm.contains_key(
                        (from + k0) as u32,
                    ));
                    if k0 < offset {
                        assert(pm.contains_key((from + k0) as u32));
                    }
                    if offset < k0 {
                        assert(pm.contains_key((from + offset) as u32));
                    }
                    assert(!all_mapped(pm, from, count as int));
                }
                return Err(Error::new(ErrorKind::MissingCopySource { index: source_index }));
            },
        }
        offset = offset + 1;
    }
    Ok(())
}

/// The index `k` places after `base`.
pub open spec fn shifted(base: u32, k: int) -> u32 {
    (base + k) as u32
}

/// Copying a range gives each destination index the GUID of the matching
/// source index and leaves every other index as it was.
pub proof fn law_copy_range_copies_consecutive_mappings(
    entry: GlobalIdTableEntry3FNDX,
    parent: Map<u32, Guid>,
    acc: Map<u32, Guid>,
)
    requires
        copy_range_spec(entry, Some(parent), acc) is Ok,
    ensures
        ({
            let m = copy_range_spec(entry, Some(parent), acc)->Ok_0;
            let from = entry.i_index_copy_from_start;
            let to = entry.i_index_copy_to_start;
            let count = entry.c_entries_to_copy;
            &&& forall|k: int|
                0 <= k < count ==> #[trigger] m.get(shifted(to, k)) == parent.get(shifted(from, k))
            &&& forall|d: u32| !(to <= d < to + count) ==> m.get(d) == acc.get(d)
        }),
{
    let m = copy_range_spec(entry, Some(parent), acc)->Ok_0;
    let from = entry.i_index_copy_from_start;
    let to = entry.i_index_copy_to_start;
    let count = entry.c_entries_to_copy;
    if count > 0 {
        assert forall|k: int| 0 <= k < count implies #[trigger] m.get(shifted(to, k)) == parent.get(
            shifted(from, k),
        ) by {
            let d = (to + k) as u32;
            assert(copied_range(parent, from, to, count as int).contains_key(d));
            assert(parent.contains_key((from + k) as u32));
        }
    }
}

/// A range with a source index that the dependency table does not map is
/// refused, naming the first such index.
pub proof fn law_copy_range_rejects_missing_source(
    entry: GlobalIdTableEntry3FNDX,
    parent: Map<u32, Guid>,
    acc: Map<u32, Guid>,
    k: int,
)
    requires
        0 <= k < entry.c_entries_to_copy,
        entry.i_index_copy_from_start + (entry.c_entries_to_copy - 1) <= u32::MAX,
        entry.i_index_copy_to_start + (entry.c_entries_to_copy - 1) < COMPACT_ID_INDEX_LIMIT,
        !parent.contains_key((entry.i_index_copy_from_start + k) as u32),
    ensures
        copy_range_spec(entry, Some(parent), acc) matches Err(e) && e.kind is MissingCopySource,
        copy_range_spec(entry, Some(parent), acc) matches Err(e) && (e.kind matches ErrorKind::MissingCopySource { index }
            && !parent.contains_key(index)),
{
    let from = entry.i_index_copy_from_start;
    let count = entry.c_entries_to_copy;
    assert(!all_mapped(parent, from, count as int));
    let first = choose_first_missing(parent, from, count as int, k);
    assert(0 <= first < count && all_mapped(parent, from, first) && !parent.contains_key(
        (from + first) as u32,
    ));
}

/// A missing index of a range has a first missing index before it.
proof fn choose_first_missing(p: Map<u32, Guid>, from: u32, count: int, k: int) -> (j: int)
    requires
        0 <= k < count,
        !p.contains_key((from + k) as u32),
    ensures
        0 <= j <= k,
        all_mapped(p, from, j),
        !p.contains_key((from + j) as u32),
    decreases k,
{
    if all_mapped(p, from, k) {
        k
    } else {
        let i = choose|i: int| 0 <= i < k && !#[trigger] p.contains_key((from + i) as u32);
        choose_first_missing(p, from, count, i)
    }
}

/// A range whose destination leaves the 24-bit index space of compact IDs
/// is refused, whatever the dependency table holds.
pub proof fn law_copy_range_rejects_destination_outside_index_space(
    entry: GlobalIdTableEntry3FNDX,
    parent: Map<u32, Guid>,
    acc: Map<u32, Guid>,
)
    requires
        entry.c_entries_to_copy > 0,
        entry.i_index_copy_from_start + (entry.c_entries_to_copy - 1) <= u32::MAX,
        entry.i_index_copy_to_start + (entry.c_entries_to_copy - 1) >= COMPACT_ID_INDEX_LIMIT,
    ensures
        copy_range_spec(entry, Some(parent), acc) == Err::<Map<u32, Guid>, Error>(
            Error {
                kind: ErrorKind::CopyDestinationOutOfRange {
                    start: entry.i_index_copy_to_start,
                    count: entry.c_entries_to_copy,
                },
            },
        ),
{
}

/// Whether the table node `n` sets the GUID of index `t`: an entry for
/// `t`, an entry inherited into `t`, or a copied range that covers `t`.
pub open spec fn writes_index(n: FileNodeData, t: u32) -> bool {
    match n {
        FileNodeData::GlobalIdTableEntryFNDX { index, .. } => index == t,
        FileNodeData::GlobalIdTableEntry2FNDX { i_index_map_to, .. } => i_index_map_to == t,
        FileNodeData::GlobalIdTableEntry3FNDX(e) => e.i_index_copy_to_start <= t && t
            < e.i_index_copy_to_start + e.c_entries_to_copy,
        _ => false,
    }
}

/// An index that no node of the table from `i` on sets keeps the GUID it
/// had.
proof fn lemma_unwritten_index_kept(
    nodes: Seq<FileNodeData>,
    i: int,
    parent: Option<Map<u32, Guid>>,
    acc: Map<u32, Guid>,
    t: u32,
)
    requires
        0 <= i,
        acc.contains_key(t),
        id_table_entries_spec(nodes, i, parent, acc) is Ok,
        forall|k: int|
            i <= k < id_table_entries_spec(nodes, i, parent, acc)->Ok_0.1 ==> !writes_index(
                #[trigger] nodes[k],
                t,
            ),
    ensures
        id_table_entries_spec(nodes, i, parent, acc)->Ok_0.0.contains_key(t),
        id_table_entries_spec(nodes, i, parent, acc)->Ok_0.0[t] == acc[t],
    decreases nodes.len() - i,
{
    if i < nodes.len() {
        let end = id_table_entries_spec(nodes, i, parent, acc)->Ok_0.1;
        match nodes[i] {
            FileNodeData::GlobalIdTableEndFNDX => {},
            FileNodeData::GlobalIdTableEntryFNDX { index, guid } => {
                lemma_id_table_entries_end(nodes, i + 1, parent, acc.insert(index, guid));
                assert(!writes_index(nodes[i], t));
                lemma_unwritten_index_kept(nodes, i + 1, parent, acc.insert(index, guid), t);
            },
            FileNodeData::GlobalIdTableEntry2FNDX { i_index_map_from, i_index_map_to } => {
                let p = parent->0;
                let next = acc.insert(i_index_map_to, p[i_index_map_from]);
                lemma_id_table_entries_end(nodes, i + 1, parent, next);
                assert(!writes_index(nodes[i], t));
                lemma_unwritten_index_kept(nodes, i + 1, parent, next, t);
            },
            FileNodeData::GlobalIdTableEntry3FNDX(entry) => {
                let next = copy_range_spec(entry, parent, acc)->Ok_0;
                lemma_id_table_entries_end(nodes, i + 1, parent, next);
                assert(!writes_index(nodes[i], t));
                assert(next.contains_key(t) && next[t] == acc[t]);
                lemma_unwritten_index_kept(nodes, i + 1, parent, next, t);
            },
            FileNodeData::UnknownNode => {
                lemma_id_table_entries_end(nodes, i + 1, parent, acc);
                lemma_unwritten_index_kept(nodes, i + 1, parent, acc, t);
            },
            _ => {},
        }
    }
}

/// Reading the table from node `i` reaches node `k` before its end, with
/// some mapping built so far.
proof fn lemma_reaches_node(
    nodes: Seq<FileNodeData>,
    i: int,
    parent: Option<Map<u32, Guid>>,
    acc: Map<u32, Guid>,
    k: int,
)
    requires
        0 <= i <= k,
        id_table_entries_spec(nodes, i, parent, acc) is Ok,
        k < id_table_entries_spec(nodes, i, parent, acc)->Ok_0.1,
    ensures
        exists|a: Map<u32, Guid>|
            id_table_entries_spec(nodes, i, parent, acc) == #[trigger] id_table_entries_spec(
                nodes,
                k,
                parent,
                a,
            ),
    decreases k - i,
{
    if i == k {
        assert(id_table_entries_spec(nodes, i, parent, acc) == id_table_entries_spec(
            nodes,
            k,
            parent,
            acc,
        ));
    } else {
        match nodes[i] {
            FileNodeData::GlobalIdTableEntryFNDX { index, guid } => {
                lemma_reaches_node(nodes, i + 1, parent, acc.insert(index, guid), k);
            },
            FileNodeData::GlobalIdTableEntry2FNDX { i_index_map_from, i_index_map_to } => {
                let p = parent->0;
                lemma_reaches_node(
                    nodes,
                    i + 1,
                    parent,
                    acc.insert(i_index_map_to, p[i_index_map_from]),
                    k,
                );
            },
            FileNodeData::GlobalIdTableEntry3FNDX(entry) => {
                lemma_reaches_node(nodes, i + 1, parent, copy_range_spec(entry, parent, acc)->Ok_0, k);
            },
            FileNodeData::UnknownNode => {
                lemma_reaches_node(nodes, i + 1, parent, acc, k);
            },
            _ => {},
        }
    }
}

/// An entry is stored at its index: when the table read from node `i`
/// holds, at node `k`, the entry that maps index `t` to `g`, and no later
/// node of the table sets `t`, the table maps `t` to `g`.
pub proof fn law_entry_lands_at_its_index(
    nodes: Seq<FileNodeData>,
    i: int,
    parent: Option<Map<u32, Guid>>,
    acc: Map<u32, Guid>,
    k: int,
    t: u32,
    g: Guid,
)
    requires
        0 <= i <= k,
        id_table_entries_spec(nodes, i, parent, acc) is Ok,
        k < id_table_entries_spec(nodes, i, parent, acc)->Ok_0.1,
        nodes[k] == (FileNodeData::GlobalIdTableEntryFNDX { index: t, guid: g }),
        forall|q: int|
            k < q < id_table_entries_spec(nodes, i, parent, acc)->Ok_0.1 ==> !writes_index(
                #[trigger] nodes[q],
                t,
            ),
    ensures
        id_table_entries_spec(nodes, i, parent, acc)->Ok_0.0.contains_key(t),
        id_table_entries_spec(nodes, i, parent, acc)->Ok_0.0[t] == g,
{
    lemma_reaches_node(nodes, i, parent, acc, k);
    let a = choose|a: Map<u32, Guid>|
        id_table_entries_spec(nodes, i, parent, acc) == #[trigger] id_table_entries_spec(
            nodes,
            k,
            parent,
            a,
        );
    let next = a.insert(t, g);
    lemma_id_table_entries_end(nodes, k + 1, parent, next);
    lemma_unwritten_index_kept(nodes, k + 1, parent, next, t);
}

/// A copied range lands at its destination: when the table read from node
/// `i` holds, at node `k`, the entry that copies `count` indices from
/// `from` of the dependency table `p` to `to`, index `to + d` (with
/// `d < count`) that no later node sets maps to the GUID that `p` gives
/// `from + d`.
pub proof fn law_copied_range_lands_at_its_destination(
    nodes: Seq<FileNodeData>,
    i: int,
    p: Map<u32, Guid>,
    acc: Map<u32, Guid>,
    k: int,
    entry: GlobalIdTableEntry3FNDX,
    d: u32,
)
    requires
        0 <= i <= k,
        id_table_entries_spec(nodes, i, Some(p), acc) is Ok,
        k < id_table_entries_spec(nodes, i, Some(p), acc)->Ok_0.1,
        nodes[k] == FileNodeData::GlobalIdTableEntry3FNDX(entry),
        d < entry.c_entries_to_copy,
        forall|q: int|
            k < q < id_table_entries_spec(nodes, i, Some(p), acc)->Ok_0.1 ==> !writes_index(
                #[trigger] nodes[q],
                (entry.i_index_copy_to_start + d) as u32,
            ),
    ensures
        entry.i_index_copy_to_start + d <= u32::MAX,
        entry.i_index_copy_from_start + d <= u32::MAX,
        p.contains_key((entry.i_index_copy_from_start + d) as u32),
        id_table_entries_spec(nodes, i, Some(p), acc)->Ok_0.0.contains_key(
            (entry.i_index_copy_to_start + d) as u32,
        ),
        id_table_entries_spec(nodes, i, Some(p), acc)->Ok_0.0[(entry.i_index_copy_to_start
            + d) as u32] == p[(entry.i_index_copy_from_start + d) as u32],
{
    let parent = Some(p);
    lemma_reaches_node(nodes, i, parent, acc, k);
    let a = choose|a: Map<u32, Guid>|
        id_table_entries_spec(nodes, i, parent, acc) == #[trigger] id_table_entries_spec(
            nodes,
            k,
            parent,
            a,
        );
    let next = copy_range_spec(entry, parent, a)->Ok_0;
    let t = (entry.i_index_copy_to_start + d) as u32;
    let f = (entry.i_index_copy_from_start + d) as u32;
    assert(p.contains_key((entry.i_index_copy_from_start + d) as u32));
    assert(copied_range(
        p,
        entry.i_index_copy_from_start,
        entry.i_index_copy_to_start,
        entry.c_entries_to_copy as int,
    ).contains_key(t));
    assert(next.contains_key(t) && next[t] == p[f]);
    lemma_id_table_entries_end(nodes, k + 1, parent, next);
    lemma_unwritten_index_kept(nodes, k + 1, parent, next, t);
}

/// An inherited entry is stored at its destination: when the table read
/// from node `i` holds, at node `k`, the entry that maps index `from` of
/// the dependency table `p` to index `to`, and no later node of the table
/// sets `to`, the table maps `to` to the GUID that `p` gives `from`.
pub proof fn law_inherited_entry_lands_at_its_destination(
    nodes: Seq<FileNodeData>,
    i: int,
    p: Map<u32, Guid>,
    acc: Map<u32, Guid>,
    k: int,
    from: u32,
    to: u32,
)
    requires
        0 <= i <= k,
        id_table_entries_spec(nodes, i, Some(p), acc) is Ok,
        k < id_table_entries_spec(nodes, i, Some(p), acc)->Ok_0.1,
        nodes[k] == (FileNodeData::GlobalIdTableEntry2FNDX { i_index_map_from: from, i_index_map_to: to }),
        p.contains_key(from),
        forall|q: int|
            k < q < id_table_entries_spec(nodes, i, Some(p), acc)->Ok_0.1 ==> !writes_index(
                #[trigger] nodes[q],
                to,
            ),
    ensures
        id_table_entries_spec(nodes, i, Some(p), acc)->Ok_0.0.contains_key(to),
        id_table_entries_spec(nodes, i, Some(p), acc)->Ok_0.0[to] == p[from],
    decreases k - i,
{
    let parent = Some(p);
    if i == k {
        let next = acc.insert(to, p[from]);
        lemma_id_table_entries_end(nodes, i + 1, parent, next);
        lemma_unwritten_index_kept(nodes, i + 1, parent, next, to);
    } else {
        match nodes[i] {
            FileNodeData::GlobalIdTableEndFNDX => {},
            FileNodeData::GlobalIdTableEntryFNDX { index, guid } => {
                law_inherited_entry_lands_at_its_destination(
                    nodes,
                    i + 1,
                    p,
                    acc.insert(index, guid),
                    k,
                    from,
                    to,
                );
            },
            FileNodeData::GlobalIdTableEntry2FNDX { i_index_map_from, i_index_map_to } => {
                law_inherited_entry_lands_at_its_destination(
                    nodes,
                    i + 1,
                    p,
                    acc.insert(i_index_map_to, p[i_index_map_from]),
                    k,
                    from,
                    to,
                );
            },
            FileNodeData::GlobalIdTableEntry3FNDX(entry) => {
                law_inherited_entry_lands_at_its_destination(
                    nodes,
                    i + 1,
                    p,
                    copy_range_spec(entry, parent, acc)->Ok_0,
                    k,
                    from,
                    to,
                );
            },
            FileNodeData::UnknownNode => {
                law_inherited_entry_lands_at_its_destination(nodes, i + 1, p, acc, k, from, to);
            },
            _ => {},
        }
    }
}

/// A table that reads without error only inherits what its dependency
/// table holds: every inherited entry before its end names an index that
/// the dependency table maps, and every copied range lies inside the
/// 24-bit index space with all its sources mapped.
pub proof fn law_read_table_inherits_only_mapped_indices(
    nodes: Seq<FileNodeData>,
    i: int,
    parent: Option<Map<u32, Guid>>,
    acc: Map<u32, Guid>,
    k: int,
)
    requires
        0 <= i <= k,
        id_table_entries_spec(nodes, i, parent, acc) is Ok,
        k < id_table_entries_spec(nodes, i, parent, acc)->Ok_0.1,
    ensures
        nodes[k] matches FileNodeData::GlobalIdTableEntry2FNDX { i_index_map_from, .. }
            ==> parent matches Some(p) && p.contains_key(i_index_map_from),
        nodes[k] matches FileNodeData::GlobalIdTableEntry3FNDX(e) ==> parent is Some && (
        e.c_entries_to_copy > 0 ==> e.i_index_copy_to_start + (e.c_entries_to_copy - 1)
            < COMPACT_ID_INDEX_LIMIT && all_mapped(
            parent->0,
            e.i_index_copy_from_start,
            e.c_entries_to_copy as int,
        )),
{
    lemma_reaches_node(nodes, i, parent, acc, k);
}

} // verus!
