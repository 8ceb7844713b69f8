use crate::errors::{Error, ErrorKind, Result};
use crate::exguid::ExGuid;
use crate::exguid_map::ExGuidMap;
use crate::file_node::{declaration_of, FileNodeData, FileNodeDataIterator};
use crate::global_id_table::{
    id_table_entries_spec, lemma_id_table_entries_end, starts_id_table, GlobalIdTable,
};
use crate::guid::Guid;
use crate::object::{declared_object_spec, Object};
use crate::onestore::{FileBlobModel, ObjectModel};
use crate::parse_context::ParseContext;
use vstd::prelude::*;

verus! {

/// `acc` with `m` added under `id`, unless `id` is already present.
pub open spec fn insert_if_absent_spec(
    acc: Map<ExGuid, ObjectModel>,
    id: ExGuid,
    m: ObjectModel,
) -> Map<ExGuid, ObjectModel> {
    if acc.contains_key(id) {
        acc
    } else {
        acc.insert(id, m)
    }
}

/// What the objects of an object group, from node `i` up to its end node
/// (which stays unread), make of the objects `acc`, with the position
/// reached.
///
/// Each declared object is named by the extended GUID that its compact ID
/// stands for in `table`; an object already present is kept.
///
/// See [MS-ONESTORE] 2.1.13.
pub open spec fn object_group_entries_spec(
    nodes: Seq<FileNodeData>,
    i: int,
    table: Map<u32, Guid>,
    context_id: ExGuid,
    store: Option<Seq<(Guid, FileBlobModel)>>,
    acc: Map<ExGuid, ObjectModel>,
) -> Result<(Map<ExGuid, ObjectModel>, int)>
    decreases nodes.len() - i,
{
    if i < 0 || i >= nodes.len() {
        Ok((acc, i))
    } else {
        match nodes[i] {
            FileNodeData::ObjectGroupEndFND => Ok((acc, i)),
            FileNodeData::DataSignatureGroupDefinitionFND { .. } => object_group_entries_spec(
                nodes,
                i + 1,
                table,
                context_id,
                store,
                acc,
            ),
            n => match declaration_of(n) {
                None => Err(Error { kind: ErrorKind::UnexpectedObjectGroupNode }),
                Some(d) => match declared_object_spec(d, context_id, store) {
                    Err(e) => Err(e),
                    Ok(m) => match table.get(d.oid.guid_index) {
                        None => Err(
                            Error {
                                kind: ErrorKind::UnresolvedCompactId { guid_index: d.oid.guid_index },
                            },
                        ),
                        Some(g) => object_group_entries_spec(
                            nodes,
                            i + 1,
                            table,
                            context_id,
                            store,
                            insert_if_absent_spec(
                                acc,
                                ExGuid { guid: g, value: d.oid.n as u32 },
                                m,
                            ),
                        ),
                    },
                },
            },
        }
    }
}

/// Reading the objects of a group never moves backwards.
pub proof fn lemma_object_group_entries_end(
    nodes: Seq<FileNodeData>,
    i: int,
    table: Map<u32, Guid>,
    context_id: ExGuid,
    store: Option<Seq<(Guid, FileBlobModel)>>,
    acc: Map<ExGuid, ObjectModel>,
)
    ensures
        object_group_entries_spec(nodes, i, table, context_id, store, acc) matches Ok((_, end))
            ==> end >= i && (i <= nodes.len() ==> end <= nodes.len()),
    decreases nodes.len() - i,
{
    if 0 <= i < nodes.len() {
        match nodes[i] {
            FileNodeData::ObjectGroupEndFND => {},
            FileNodeData::DataSignatureGroupDefinitionFND { .. } => {
                lemma_object_group_entries_end(nodes, i + 1, table, context_id, store, acc);
            },
            n => match declaration_of(n) {
                None => {},
                Some(d) => match declared_object_spec(d, context_id, store) {
                    Err(_) => {},
                    Ok(m) => match table.get(d.oid.guid_index) {
                        None => {},
                        Some(g) => lemma_object_group_entries_end(
                            nodes,
                            i + 1,
                            table,
                            context_id,
                            store,
                            insert_if_absent_spec(acc, ExGuid { guid: g, value: d.oid.n as u32 }, m),
                        ),
                    },
                },
            },
        }
    }
}

/// What the object group that starts at node `i` makes of the objects
/// `acc`, with the position reached: its start node, its global
/// identification table, then its objects.
pub open spec fn object_group_spec(
    nodes: Seq<FileNodeData>,
    i: int,
    context_id: ExGuid,
    store: Option<Seq<(Guid, FileBlobModel)>>,
    acc: Map<ExGuid, ObjectModel>,
) -> Result<(Map<ExGuid, ObjectModel>, int)> {
    if !(0 <= i < nodes.len() && nodes[i] is ObjectGroupStartFND) {
        Err(Error { kind: ErrorKind::MissingObjectGroupStart })
    } else if !(i + 1 < nodes.len() && starts_id_table(nodes[i + 1])) {
        Err(Error { kind: ErrorKind::MissingObjectGroupIdTable })
    } else {
        match id_table_entries_spec(nodes, i + 2, None, Map::empty()) {
            Err(e) => Err(e),
            Ok((table, j)) => object_group_entries_spec(nodes, j, table, context_id, store, acc),
        }
    }
}

/// What an object group list under the cursor at node `i` makes of the
/// objects `acc`, with the position reached: `None` if no object group
/// list starts there.
///
/// A reference to a list reads the list it points to and moves past the
/// reference; an object group written in place is read in place.
pub open spec fn object_group_list_spec(
    nodes: Seq<FileNodeData>,
    i: int,
    context_id: ExGuid,
    store: Option<Seq<(Guid, FileBlobModel)>>,
    acc: Map<ExGuid, ObjectModel>,
) -> Option<Result<(Map<ExGuid, ObjectModel>, int)>> {
    if !(0 <= i < nodes.len()) {
        None
    } else {
        match nodes[i] {
            FileNodeData::ObjectGroupListReferenceFND { list, .. } => Some(
                match object_group_spec(list.file_node_sequence@, 0, context_id, store, acc) {
                    Ok((m, _)) => Ok((m, i + 1)),
                    Err(e) => Err(e),
                },
            ),
            FileNodeData::ObjectGroupStartFND { .. } => Some(
                object_group_spec(nodes, i, context_id, store, acc),
            ),
            _ => None,
        }
    }
}

/// Reading an object group list always moves forward.
pub proof fn lemma_object_group_list_progress(
    nodes: Seq<FileNodeData>,
    i: int,
    context_id: ExGuid,
    store: Option<Seq<(Guid, FileBlobModel)>>,
    acc: Map<ExGuid, ObjectModel>,
)
    ensures
        object_group_list_spec(nodes, i, context_id, store, acc) matches Some(Ok((_, end))) ==> end
            > i && end <= nodes.len(),
{
    if 0 <= i < nodes.len() && nodes[i] is ObjectGroupStartFND && i + 1 < nodes.len()
        && starts_id_table(nodes[i + 1]) {
        lemma_id_table_entries_end(nodes, i + 2, None, Map::empty());
        match id_table_entries_spec(nodes, i + 2, None, Map::empty()) {
            Ok((table, j)) => lemma_object_group_entries_end(nodes, j, table, context_id, store, acc),
            Err(_) => {},
        }
    }
}

/// The objects of an object group.
///
/// See [MS-ONESTORE] 2.1.13.
pub struct ObjectGroupList {}

impl ObjectGroupList {
    /// Reads an object group list if one starts under the cursor, adding
    /// its objects to `objects`; leaves everything as it is otherwise.
    pub fn try_parse_into(
        iterator: &mut FileNodeDataIterator,
        context: &ParseContext,
        objects: &mut ExGuidMap<crate::onestore::Object>,
    ) -> (r: Result<Option<()>>)
        requires
            old(iterator).wf(),
            old(objects).wf(),
        ensures
            final(iterator).wf(),
            final(iterator).nodes() == old(iterator).nodes(),
            final(objects).wf(),
            match object_group_list_spec(
                old(iterator).nodes(),
                old(iterator).index(),
                context.context_id,
                context.store_view(),
                old(objects)@,
            ) {
                None => r == Ok::<Option<()>, Error>(None) && final(iterator).index() == old(iterator).index() && final(objects)@ == old(objects)@,
                Some(Ok((m, end))) => r == Ok::<Option<()>, Error>(Some(())) && final(objects)@ == m
                    && final(iterator).index() == end,
                Some(Err(e)) => r == Err::<Option<()>, Error>(e),
            },
    {
        match iterator.peek() {
            Some(FileNodeData::ObjectGroupListReferenceFND { list, .. }) => {
                iterator.next();
                let mut list_iterator = list.iter_data();
                ObjectGroupList::parse_into(&mut list_iterator, context, objects)?;
                Ok(Some(()))
            },
            Some(FileNodeData::ObjectGroupStartFND { .. }) => {
                ObjectGroupList::parse_into(iterator, context, objects)?;
                Ok(Some(()))
            },
            _ => Ok(None),
        }
    }

    /// Reads the object group that starts under the cursor, adding its
    /// objects to `objects`.
    fn parse_into(
        iterator: &mut FileNodeDataIterator,
        context: &ParseContext,
        objects: &mut ExGuidMap<crate::onestore::Object>,
    ) -> (r: Result<()>)
        requires
            old(iterator).wf(),
            old(objects).wf(),
        ensures
            final(iterator).wf(),
            final(iterator).nodes() == old(iterator).nodes(),
            final(objects).wf(),
            match object_group_spec(
                old(iterator).nodes(),
                old(iterator).index(),
                context.context_id,
                context.store_view(),
                old(objects)@,
            ) {
                Ok((m, end)) => r is Ok && final(objects)@ == m && final(iterator).index() == end,
                Err(e) => r == Err::<(), Error>(e),
            },
    {
        let ghost nodes = iterator.nodes();
        let ghost i0 = iterator.index();
        match iterator.next() {
            Some(FileNodeData::ObjectGroupStartFND { .. }) => {},
            _ => {
                return Err(Error::new(ErrorKind::MissingObjectGroupStart));
            },
        }
        let id_table = match GlobalIdTable::try_parse(iterator, None)? {
            Some(t) => t,
            None => {
                return Err(Error::new(ErrorKind::MissingObjectGroupIdTable));
            },
        };
        let ghost table = id_table.id_map@;
        let ghost start = iterator.index();
        loop
            invariant_except_break
                iterator.wf(),
                iterator.nodes() == nodes,
                nodes == old(iterator).nodes(),
                i0 == old(iterator).index(),
                objects.wf(),
                table == id_table.id_map@,
                object_group_spec(nodes, i0, context.context_id, context.store_view(), old(objects)@)
                    == object_group_entries_spec(
                    nodes,
                    iterator.index(),
                    table,
                    context.context_id,
                    context.store_view(),
                    objects@,
                ),
            ensures
                iterator.wf(),
                iterator.nodes() == nodes,
                nodes == old(iterator).nodes(),
                objects.wf(),
                object_group_spec(nodes, i0, context.context_id, context.store_view(), old(objects)@)
                    == Ok::<(Map<ExGuid, ObjectModel>, int), Error>((objects@, iterator.index())),
            decreases nodes.len() - iterator.index(),
        {
            match iterator.peek() {
                None => {
                    break;
                },
                Some(FileNodeData::ObjectGroupEndFND) => {
                    break;
                },
                Some(FileNodeData::DataSignatureGroupDefinitionFND { .. }) => {
                    iterator.next();
                },
                Some(_) => {
                    let parsed = Object::try_parse(iterator, context);
                    match parsed {
                        Err(e) => {
                            return Err(e);
                        },
                        Ok(Some(object)) => {
                            let id = match id_table.resolve_id(&object.compact_id) {
                                Ok(id) => id,
                                Err(e) => {
                                    return Err(e);
                                },
                            };
                            objects.insert_if_absent(id, object.data);
                        },
                        Ok(None) => {
                            return Err(Error::new(ErrorKind::UnexpectedObjectGroupNode));
                        },
                    }
                },
            }
        }
        Ok(())
    }
}

} // verus!
