//! The OneNote 2016 reading of a revision manifest list: the roots and
//! objects of all its revisions are gathered into one object space, and
//! the first declaration of an object or of a root wins.
//!
//! This reading follows no revision dependencies and ignores which
//! revision is labelled as the current content.
use crate::errors::{Error, ErrorKind, Result};
use crate::exguid::ExGuid;
use crate::exguid_map::ExGuidMap;
use crate::file_node::{declaration_of, FileNodeData, FileNodeDataIterator};
use crate::global_id_table::{
    id_table_entries_spec, lemma_id_table_entries_end, starts_id_table, GlobalIdTable,
};
use crate::guid::Guid;
use crate::object::{declared_object_spec, Object};
use crate::object_group_list::{
    insert_if_absent_spec, lemma_object_group_list_progress, object_group_entries_spec,
    object_group_list_spec, ObjectGroupList,
};
use crate::onestore::{root_role_spec, with_root, FileBlobModel, ObjectModel, RootRole, Roots};
use crate::parse_context::ParseContext;
use crate::revision::{revision_start_of, skip_overrides, skip_signature};
use vstd::prelude::*;

verus! {

/// `r` with the root of `role` set to `id`, unless `r` has one already.
pub open spec fn with_root_if_absent(r: Roots, role: RootRole, id: ExGuid) -> Roots {
    if r.spec_get(role) is Some {
        r
    } else {
        with_root(r, role, id)
    }
}

/// What the objects declared right after a global identification table,
/// from node `i`, add to `objects`, with the position reached: each object
/// is named through `table`, and an object already present is kept.
pub open spec fn merged_table_objects_spec(
    nodes: Seq<FileNodeData>,
    i: int,
    table: Map<u32, Guid>,
    context_id: ExGuid,
    store: Option<Seq<(Guid, FileBlobModel)>>,
    objects: Map<ExGuid, ObjectModel>,
) -> Result<(Map<ExGuid, ObjectModel>, int)>
    decreases nodes.len() - i,
{
    if !(0 <= i < nodes.len()) {
        Ok((objects, i))
    } else {
        match declaration_of(nodes[i]) {
            None => Ok((objects, i)),
            Some(d) => match declared_object_spec(d, context_id, store) {
                Err(e) => Err(e),
                Ok(m) => match table.get(d.oid.guid_index) {
                    None => Err(
                        Error { kind: ErrorKind::UnresolvedCompactId { guid_index: d.oid.guid_index } },
                    ),
                    Some(g) => merged_table_objects_spec(
                        nodes,
                        skip_overrides(nodes, i + 1),
                        table,
                        context_id,
                        store,
                        insert_if_absent_spec(objects, ExGuid { guid: g, value: d.oid.n as u32 }, m),
                    ),
                },
            },
        }
    }
}

/// Reading the objects after a table never moves backwards.
pub proof fn lemma_merged_table_objects_end(
    nodes: Seq<FileNodeData>,
    i: int,
    table: Map<u32, Guid>,
    context_id: ExGuid,
    store: Option<Seq<(Guid, FileBlobModel)>>,
    objects: Map<ExGuid, ObjectModel>,
)
    ensures
        merged_table_objects_spec(nodes, i, table, context_id, store, objects) matches Ok((_, end))
            ==> end >= i && (i <= nodes.len() ==> end <= nodes.len()),
    decreases nodes.len() - i,
{
    if 0 <= i < nodes.len() {
        match declaration_of(nodes[i]) {
            None => {},
            Some(d) => match declared_object_spec(d, context_id, store) {
                Err(_) => {},
                Ok(m) => match table.get(d.oid.guid_index) {
                    None => {},
                    Some(g) => lemma_merged_table_objects_end(
                        nodes,
                        skip_overrides(nodes, i + 1),
                        table,
                        context_id,
                        store,
                        insert_if_absent_spec(objects, ExGuid { guid: g, value: d.oid.n as u32 }, m),
                    ),
                },
            },
        }
    }
}

/// What the revisions read so far have gathered, with the last global
/// identification table of the revision being read.
pub struct MergedState {
    pub objects: Map<ExGuid, ObjectModel>,
    pub roots: Roots,
    pub last_table: Option<Map<u32, Guid>>,
}

/// What the nodes of a revision, from node `i` up to and including its
/// end node, add to the state `st`, with the position after them.
#[verifier::opaque]
pub open spec fn merged_body_spec(
    nodes: Seq<FileNodeData>,
    i: int,
    context_id: ExGuid,
    store: Option<Seq<(Guid, FileBlobModel)>>,
    st: MergedState,
) -> Result<(MergedState, int)>
    decreases nodes.len() - i,
{
    if !(0 <= i < nodes.len()) {
        Ok((st, i))
    } else if nodes[i] is RevisionManifestEndFND {
        Ok((st, i + 1))
    } else {
        match object_group_list_spec(nodes, i, context_id, store, st.objects) {
            Some(Err(e)) => Err(e),
            Some(Ok((objects, j))) => {
                proof {
                    lemma_object_group_list_progress(nodes, i, context_id, store, st.objects);
                }
                merged_body_spec(
                    nodes,
                    skip_overrides(nodes, j),
                    context_id,
                    store,
                    MergedState { objects, ..st },
                )
            },
            None => if starts_id_table(nodes[i]) {
                match id_table_entries_spec(nodes, i + 1, None, Map::empty()) {
                    Err(e) => Err(e),
                    Ok((table, j)) => match merged_table_objects_spec(
                        nodes,
                        skip_signature(nodes, j),
                        table,
                        context_id,
                        store,
                        st.objects,
                    ) {
                        Err(e) => Err(e),
                        Ok((objects, k)) => {
                            proof {
                                lemma_id_table_entries_end(nodes, i + 1, None, Map::empty());
                                lemma_merged_table_objects_end(
                                    nodes,
                                    skip_signature(nodes, j),
                                    table,
                                    context_id,
                                    store,
                                    st.objects,
                                );
                            }
                            merged_body_spec(
                                nodes,
                                k,
                                context_id,
                                store,
                                MergedState { objects, roots: st.roots, last_table: Some(table) },
                            )
                        },
                    },
                }
            } else {
                match nodes[i] {
                    FileNodeData::RootObjectReference3FND { oid_root, root_role } => match root_role_spec(
                        root_role,
                    ) {
                        None => Err(Error { kind: ErrorKind::InvalidRootRole { role: root_role } }),
                        Some(role) => merged_body_spec(
                            nodes,
                            i + 1,
                            context_id,
                            store,
                            MergedState { roots: with_root_if_absent(st.roots, role, oid_root), ..st },
                        ),
                    },
                    FileNodeData::RootObjectReference2FNDX { oid_root, root_role } => match st.last_table {
                        None => Err(Error { kind: ErrorKind::MissingRootIdTable }),
                        Some(t) => match t.get(oid_root.guid_index) {
                            None => Err(
                                Error {
                                    kind: ErrorKind::UnresolvedCompactId {
                                        guid_index: oid_root.guid_index,
                                    },
                                },
                            ),
                            Some(g) => match root_role_spec(root_role) {
                                None => Err(
                                    Error { kind: ErrorKind::InvalidRootRole { role: root_role } },
                                ),
                                Some(role) => merged_body_spec(
                                    nodes,
                                    i + 1,
                                    context_id,
                                    store,
                                    MergedState {
                                        roots: with_root_if_absent(
                                            st.roots,
                                            role,
                                            ExGuid { guid: g, value: oid_root.n as u32 },
                                        ),
                                        ..st
                                    },
                                ),
                            },
                        },
                    },
                    FileNodeData::DataSignatureGroupDefinitionFND { .. } => merged_body_spec(
                        nodes,
                        i + 1,
                        context_id,
                        store,
                        st,
                    ),
                    _ => Err(Error { kind: ErrorKind::UnexpectedRevisionNode }),
                }
            },
        }
    }
}

/// Reading the body of a revision never moves backwards.
pub proof fn lemma_merged_body_end(
    nodes: Seq<FileNodeData>,
    i: int,
    context_id: ExGuid,
    store: Option<Seq<(Guid, FileBlobModel)>>,
    st: MergedState,
)
    ensures
        merged_body_spec(nodes, i, context_id, store, st) matches Ok((_, end)) ==> end >= i && (i
            <= nodes.len() ==> end <= nodes.len()),
    decreases nodes.len() - i,
{
    reveal(merged_body_spec);
    if 0 <= i < nodes.len() && !(nodes[i] is RevisionManifestEndFND) {
        match object_group_list_spec(nodes, i, context_id, store, st.objects) {
            Some(Err(_)) => {},
            Some(Ok((objects, j))) => {
                lemma_object_group_list_progress(nodes, i, context_id, store, st.objects);
                lemma_merged_body_end(
                    nodes,
                    skip_overrides(nodes, j),
                    context_id,
                    store,
                    MergedState { objects, ..st },
                );
            },
            None => if starts_id_table(nodes[i]) {
                match id_table_entries_spec(nodes, i + 1, None, Map::empty()) {
                    Err(_) => {},
                    Ok((table, j)) => match merged_table_objects_spec(
                        nodes,
                        skip_signature(nodes, j),
                        table,
                        context_id,
                        store,
                        st.objects,
                    ) {
                        Err(_) => {},
                        Ok((objects, k)) => {
                            lemma_id_table_entries_end(nodes, i + 1, None, Map::empty());
                            lemma_merged_table_objects_end(
                                nodes,
                                skip_signature(nodes, j),
                                table,
                                context_id,
                                store,
                                st.objects,
                            );
                            lemma_merged_body_end(
                                nodes,
                                k,
                                context_id,
                                store,
                                MergedState { objects, roots: st.roots, last_table: Some(table) },
                            );
                        },
                    },
                }
            } else {
                match nodes[i] {
                    FileNodeData::RootObjectReference3FND { oid_root, root_role } => match root_role_spec(
                        root_role,
                    ) {
                        None => {},
                        Some(role) => lemma_merged_body_end(
                            nodes,
                            i + 1,
                            context_id,
                            store,
                            MergedState { roots: with_root_if_absent(st.roots, role, oid_root), ..st },
                        ),
                    },
                    FileNodeData::RootObjectReference2FNDX { oid_root, root_role } => match st.last_table {
                        None => {},
                        Some(t) => match t.get(oid_root.guid_index) {
                            None => {},
                            Some(g) => match root_role_spec(root_role) {
                                None => {},
                                Some(role) => lemma_merged_body_end(
                                    nodes,
                                    i + 1,
                                    context_id,
                                    store,
                                    MergedState {
                                        roots: with_root_if_absent(
                                            st.roots,
                                            role,
                                            ExGuid { guid: g, value: oid_root.n as u32 },
                                        ),
                                        ..st
                                    },
                                ),
                            },
                        },
                    },
                    FileNodeData::DataSignatureGroupDefinitionFND { .. } => lemma_merged_body_end(
                        nodes,
                        i + 1,
                        context_id,
                        store,
                        st,
                    ),
                    _ => {},
                }
            },
        }
    }
}

/// The identifier of the revision that starts at node `i`, with the
/// objects and roots after its entries are added to `objects` and `roots`,
/// and the position after it.
pub open spec fn merged_revision_spec(
    nodes: Seq<FileNodeData>,
    i: int,
    context_id: ExGuid,
    store: Option<Seq<(Guid, FileBlobModel)>>,
    objects: Map<ExGuid, ObjectModel>,
    roots: Roots,
) -> Result<(ExGuid, Map<ExGuid, ObjectModel>, Roots, int)> {
    match if 0 <= i < nodes.len() {
        revision_start_of(nodes[i])
    } else {
        None
    } {
        None => Err(Error { kind: ErrorKind::InvalidRevisionStart }),
        Some((id, _, _, _)) => match merged_body_spec(
            nodes,
            i + 1,
            context_id,
            store,
            MergedState { objects, roots, last_table: None },
        ) {
            Err(e) => Err(e),
            Ok((st, end)) => Ok((id, st.objects, st.roots, end)),
        },
    }
}

/// A revision read successfully ends after its start node, within its
/// nodes.
pub proof fn lemma_merged_revision_end(
    nodes: Seq<FileNodeData>,
    i: int,
    context_id: ExGuid,
    store: Option<Seq<(Guid, FileBlobModel)>>,
    objects: Map<ExGuid, ObjectModel>,
    roots: Roots,
)
    ensures
        merged_revision_spec(nodes, i, context_id, store, objects, roots) matches Ok((_, _, _, end))
            ==> i < end <= nodes.len(),
{
    lemma_merged_body_end(
        nodes,
        i + 1,
        context_id,
        store,
        MergedState { objects, roots, last_table: None },
    );
}

/// The table that `t` holds, as a mapping.
pub open spec fn table_view(t: Option<GlobalIdTable>) -> Option<Map<u32, Guid>> {
    match t {
        Some(table) => Some(table.id_map@),
        None => None,
    }
}

/// Moves the cursor past a reference-count override node, if one is
/// under it.
fn skip_overrides_node(iterator: &mut FileNodeDataIterator)
    requires
        old(iterator).wf(),
    ensures
        final(iterator).wf(),
        final(iterator).nodes() == old(iterator).nodes(),
        final(iterator).index() == skip_overrides(old(iterator).nodes(), old(iterator).index()),
{
    if let Some(FileNodeData::ObjectInfoDependencyOverridesFND) = iterator.peek() {
        iterator.next();
    }
}

/// Reads the objects declared right after a global identification table,
/// keeping any object already present.
fn parse_table_objects(
    iterator: &mut FileNodeDataIterator,
    global_id_table: &GlobalIdTable,
    context: &ParseContext,
    objects: &mut ExGuidMap<crate::onestore::Object>,
) -> (r: Result<()>)
    requires
        old(iterator).wf(),
        old(objects).wf(),
    ensures
        final(iterator).wf(),
        final(iterator).nodes() == old(iterator).nodes(),
        final(objects).wf(),
        match merged_table_objects_spec(
            old(iterator).nodes(),
            old(iterator).index(),
            global_id_table.id_map@,
            context.context_id,
            context.store_view(),
            old(objects)@,
        ) {
            Ok((m, end)) => r is Ok && final(objects)@ == m && final(iterator).index() == end,
            Err(e) => r == Err::<(), Error>(e),
        },
{
    let ghost nodes = iterator.nodes();
    let ghost table = global_id_table.id_map@;
    loop
        invariant_except_break
            iterator.wf(),
            iterator.nodes() == nodes,
            nodes == old(iterator).nodes(),
            objects.wf(),
            table == global_id_table.id_map@,
            merged_table_objects_spec(
                nodes,
                old(iterator).index(),
                table,
                context.context_id,
                context.store_view(),
                old(objects)@,
            ) == merged_table_objects_spec(
                nodes,
                iterator.index(),
                table,
                context.context_id,
                context.store_view(),
                objects@,
            ),
        ensures
            iterator.wf(),
            iterator.nodes() == nodes,
            nodes == old(iterator).nodes(),
            objects.wf(),
            merged_table_objects_spec(
                nodes,
                old(iterator).index(),
                table,
                context.context_id,
                context.store_view(),
                old(objects)@,
            ) == Ok::<(Map<ExGuid, ObjectModel>, int), Error>((objects@, iterator.index())),
        decreases nodes.len() - iterator.index(),
    {
        match Object::try_parse(iterator, context)? {
            Some(object) => {
                let id = global_id_table.resolve_id(&object.compact_id)?;
                objects.insert_if_absent(id, object.data);
            },
            None => {
                break;
            },
        }
        skip_overrides_node(iterator);
    }
    Ok(())
}


/// The state that `objects`, `roots` and `last_table` describe.
pub open spec fn merged_state(
    objects: &ExGuidMap<crate::onestore::Object>,
    roots: Roots,
    last_table: Option<GlobalIdTable>,
) -> MergedState {
    MergedState { objects: objects@, roots, last_table: table_view(last_table) }
}

/// A revision of an object space, read into the roots and objects that the
/// revisions before it gathered.
///
/// See [MS-ONESTORE] 2.1.9.
pub struct Revision {}

impl Revision {
    /// Reads the revision that starts under the cursor, if one does, adding
    /// its roots and objects to `roots` and `objects` and returning its
    /// identifier; leaves everything as it is otherwise.
    pub fn try_parse_into(
        iterator: &mut FileNodeDataIterator,
        context: &ParseContext,
        roots: &mut Roots,
        objects: &mut ExGuidMap<crate::onestore::Object>,
    ) -> (r: Result<Option<ExGuid>>)
        requires
            old(iterator).wf(),
            old(objects).wf(),
        ensures
            final(iterator).wf(),
            final(iterator).nodes() == old(iterator).nodes(),
            final(objects).wf(),
            match old(iterator).spec_peek() {
                Some(n) if revision_start_of(n) is Some => match merged_revision_spec(
                    old(iterator).nodes(),
                    old(iterator).index(),
                    context.context_id,
                    context.store_view(),
                    old(objects)@,
                    *old(roots),
                ) {
                    Ok((id, os, rs, end)) => r == Ok::<Option<ExGuid>, Error>(Some(id)) && final(objects)@ == os
                        && *final(roots) == rs && final(iterator).index() == end,
                    Err(e) => r == Err::<Option<ExGuid>, Error>(e),
                },
                _ => r == Ok::<Option<ExGuid>, Error>(None) && final(iterator).index() == old(iterator).index()
                    && *final(roots) == *old(roots) && final(objects)@ == old(objects)@,
            },
    {
        let starts = match iterator.peek() {
            Some(FileNodeData::RevisionManifestStart4FND(_)) => true,
            Some(FileNodeData::RevisionManifestStart6FND(_)) => true,
            Some(FileNodeData::RevisionManifestStart7FND(_)) => true,
            _ => false,
        };
        if starts {
            let id = Revision::parse_into(iterator, context, roots, objects)?;
            Ok(Some(id))
        } else {
            Ok(None)
        }
    }

    /// Reads the revision that starts under the cursor into `roots` and
    /// `objects`, returning its identifier.
    fn parse_into(
        iterator: &mut FileNodeDataIterator,
        context: &ParseContext,
        roots: &mut Roots,
        objects: &mut ExGuidMap<crate::onestore::Object>,
    ) -> (r: Result<ExGuid>)
        requires
            old(iterator).wf(),
            old(objects).wf(),
        ensures
            final(iterator).wf(),
            final(iterator).nodes() == old(iterator).nodes(),
            final(objects).wf(),
            match merged_revision_spec(
                old(iterator).nodes(),
                old(iterator).index(),
                context.context_id,
                context.store_view(),
                old(objects)@,
                *old(roots),
            ) {
                Ok((id, os, rs, end)) => r == Ok::<ExGuid, Error>(id) && final(objects)@ == os
                    && *final(roots) == rs && final(iterator).index() == end,
                Err(e) => r == Err::<ExGuid, Error>(e),
            },
    {
        let ghost nodes = iterator.nodes();
        let ghost i0 = iterator.index();
        let id = match iterator.next() {
            Some(FileNodeData::RevisionManifestStart4FND(data)) => data.rid,
            Some(FileNodeData::RevisionManifestStart6FND(data)) => data.rid,
            Some(FileNodeData::RevisionManifestStart7FND(data)) => data.base.rid,
            _ => {
                return Err(Error::new(ErrorKind::InvalidRevisionStart));
            },
        };
        let mut last_table: Option<GlobalIdTable> = None;
        let ghost st0 = merged_state(objects, *roots, last_table);
        let ghost body_start = iterator.index();
        loop
            invariant_except_break
                iterator.wf(),
                iterator.nodes() == nodes,
                nodes == old(iterator).nodes(),
                i0 == old(iterator).index(),
                body_start == i0 + 1,
                st0 == (MergedState { objects: old(objects)@, roots: *old(roots), last_table: None }),
                merged_revision_spec(
                    nodes,
                    i0,
                    context.context_id,
                    context.store_view(),
                    old(objects)@,
                    *old(roots),
                ) == match merged_body_spec(nodes, body_start, context.context_id, context.store_view(), st0) {
                    Err(e) => Err(e),
                    Ok((st, end)) => Ok((id, st.objects, st.roots, end)),
                },
                objects.wf(),
                merged_body_spec(nodes, body_start, context.context_id, context.store_view(), st0)
                    == merged_body_spec(
                    nodes,
                    iterator.index(),
                    context.context_id,
                    context.store_view(),
                    merged_state(objects, *roots, last_table),
                ),
            ensures
                iterator.wf(),
                iterator.nodes() == nodes,
                objects.wf(),
                merged_revision_spec(
                    nodes,
                    i0,
                    context.context_id,
                    context.store_view(),
                    old(objects)@,
                    *old(roots),
                ) == match merged_body_spec(nodes, body_start, context.context_id, context.store_view(), st0) {
                    Err(e) => Err(e),
                    Ok((st, end)) => Ok((id, st.objects, st.roots, end)),
                },
                merged_body_spec(nodes, body_start, context.context_id, context.store_view(), st0)
                    == Ok::<(MergedState, int), Error>(
                    (merged_state(objects, *roots, last_table), iterator.index()),
                ),
            decreases nodes.len() - iterator.index(),
        {
            let done = Revision::step(iterator, context, roots, objects, &mut last_table)?;
            if done {
                break;
            }
        }
        Ok(id)
    }

    /// Reads the next entry of the revision under the cursor; `true` once
    /// the revision has ended.
    fn step(
        iterator: &mut FileNodeDataIterator,
        context: &ParseContext,
        roots: &mut Roots,
        objects: &mut ExGuidMap<crate::onestore::Object>,
        last_table: &mut Option<GlobalIdTable>,
    ) -> (r: Result<bool>)
        requires
            old(iterator).wf(),
            old(objects).wf(),
        ensures
            final(iterator).wf(),
            final(iterator).nodes() == old(iterator).nodes(),
            final(objects).wf(),
            match r {
                Ok(true) => merged_body_spec(
                    old(iterator).nodes(),
                    old(iterator).index(),
                    context.context_id,
                    context.store_view(),
                    merged_state(old(objects), *old(roots), *old(last_table)),
                ) == Ok::<(MergedState, int), Error>(
                    (merged_state(final(objects), *final(roots), *final(last_table)), final(iterator).index()),
                ),
                Ok(false) => final(iterator).index() > old(iterator).index() && merged_body_spec(
                    old(iterator).nodes(),
                    old(iterator).index(),
                    context.context_id,
                    context.store_view(),
                    merged_state(old(objects), *old(roots), *old(last_table)),
                ) == merged_body_spec(
                    final(iterator).nodes(),
                    final(iterator).index(),
                    context.context_id,
                    context.store_view(),
                    merged_state(final(objects), *final(roots), *final(last_table)),
                ),
                Err(e) => merged_body_spec(
                    old(iterator).nodes(),
                    old(iterator).index(),
                    context.context_id,
                    context.store_view(),
                    merged_state(old(objects), *old(roots), *old(last_table)),
                ) == Err::<(MergedState, int), Error>(e),
            },
    {
        let ghost nodes = iterator.nodes();
        let ghost at = iterator.index();
        let ghost st = merged_state(objects, *roots, *last_table);
        proof {
            reveal(merged_body_spec);
        }
        let current = match iterator.peek() {
            Some(n) => n,
            None => {
                return Ok(true);
            },
        };
        if let FileNodeData::RevisionManifestEndFND = current {
            iterator.next();
            return Ok(true);
        }
        let grouped = ObjectGroupList::try_parse_into(iterator, context, objects)?;
        if grouped.is_some() {
            proof {
                lemma_object_group_list_progress(nodes, at, context.context_id, context.store_view(), st.objects);
            }
            skip_overrides_node(iterator);
            return Ok(false);
        }
        match GlobalIdTable::try_parse(iterator, None)? {
            Some(table) => {
                if let Some(FileNodeData::DataSignatureGroupDefinitionFND { .. }) = iterator.peek() {
                    iterator.next();
                }
                let ghost j = iterator.index();
                parse_table_objects(iterator, &table, context, objects)?;
                proof {
                    lemma_id_table_entries_end(nodes, at + 1, None, Map::empty());
                    lemma_merged_table_objects_end(
                        nodes,
                        j,
                        table.id_map@,
                        context.context_id,
                        context.store_view(),
                        st.objects,
                    );
                }
                *last_table = Some(table);
                Ok(false)
            },
            None => {
                match current {
                    FileNodeData::RootObjectReference3FND { oid_root, root_role } => {
                        iterator.next();
                        let role = RootRole::try_from(*root_role)?;
                        if roots.get(role).is_none() {
                            roots.insert(role, *oid_root);
                        }
                    },
                    FileNodeData::RootObjectReference2FNDX { oid_root, root_role } => {
                        iterator.next();
                        let oid = match last_table {
                            Some(t) => t.resolve_id(oid_root)?,
                            None => {
                                return Err(Error::new(ErrorKind::MissingRootIdTable));
                            },
                        };
                        let role = RootRole::try_from(*root_role)?;
                        if roots.get(role).is_none() {
                            roots.insert(role, oid);
                        }
                    },
                    FileNodeData::DataSignatureGroupDefinitionFND { .. } => {
                        iterator.next();
                    },
                    _ => {
                        return Err(Error::new(ErrorKind::UnexpectedRevisionNode));
                    },
                }
                Ok(false)
            },
        }
    }
}


/// What the entries of a revision manifest list, from node `i` up to its
/// end node (which stays unread), add to `objects` and `roots`, with the
/// position reached; `seen` holds the identifiers of the revisions read
/// before.
///
/// A role declaration is accepted as it stands; a role and context
/// declaration must name a revision read before it.
///
/// See [MS-ONESTORE] 2.1.8.
#[verifier::opaque]
pub open spec fn merged_list_body_spec(
    nodes: Seq<FileNodeData>,
    i: int,
    context_id: ExGuid,
    store: Option<Seq<(Guid, FileBlobModel)>>,
    seen: Seq<ExGuid>,
    objects: Map<ExGuid, ObjectModel>,
    roots: Roots,
) -> Result<(Map<ExGuid, ObjectModel>, Roots, int)>
    decreases nodes.len() - i,
{
    if !(0 <= i < nodes.len()) {
        Ok((objects, roots, i))
    } else {
        match nodes[i] {
            FileNodeData::RevisionManifestEndFND => Ok((objects, roots, i)),
            FileNodeData::RevisionRoleDeclarationFND { .. } => merged_list_body_spec(
                nodes,
                i + 1,
                context_id,
                store,
                seen,
                objects,
                roots,
            ),
            FileNodeData::RevisionRoleAndContextDeclarationFND { rid, .. } => if seen.contains(rid) {
                merged_list_body_spec(nodes, i + 1, context_id, store, seen, objects, roots)
            } else {
                Err(Error { kind: ErrorKind::UndeclaredLabelTarget })
            },
            n => if revision_start_of(n) is None {
                Err(Error { kind: ErrorKind::UnexpectedRevisionManifestListNode })
            } else {
                match merged_revision_spec(nodes, i, context_id, store, objects, roots) {
                    Err(e) => Err(e),
                    Ok((id, os, rs, j)) => {
                        proof {
                            lemma_merged_revision_end(nodes, i, context_id, store, objects, roots);
                        }
                        merged_list_body_spec(nodes, j, context_id, store, seen.push(id), os, rs)
                    },
                }
            },
        }
    }
}

/// The objects and roots that the revision manifest list whose entries
/// start at node `i` adds to `objects` and `roots`, with the position of
/// its end node.
pub open spec fn merged_list_spec(
    nodes: Seq<FileNodeData>,
    i: int,
    context_id: ExGuid,
    store: Option<Seq<(Guid, FileBlobModel)>>,
    objects: Map<ExGuid, ObjectModel>,
    roots: Roots,
) -> Result<(Map<ExGuid, ObjectModel>, Roots, int)> {
    merged_list_body_spec(nodes, i, context_id, store, Seq::empty(), objects, roots)
}

/// Whether `id` is one of `seen`.
fn seen_contains(seen: &Vec<ExGuid>, id: ExGuid) -> (b: bool)
    ensures
        b == seen@.contains(id),
{
    let mut k: usize = 0;
    while k < seen.len()
        invariant
            0 <= k <= seen.len(),
            forall|j: int| 0 <= j < k ==> seen@[j] != id,
        decreases seen.len() - k,
    {
        if seen[k] == id {
            assert(seen@[k as int] == id);
            return true;
        }
        k += 1;
    }
    false
}

/// The revisions of an object space, merged into one set of roots and
/// objects.
///
/// See [MS-ONESTORE] 2.1.8.
pub struct RevisionManifestList {}

impl RevisionManifestList {
    /// Reads a revision manifest list if one starts under the cursor,
    /// adding the roots and objects of all its revisions to `roots` and
    /// `objects`; leaves everything as it is otherwise.
    pub fn try_parse_into(
        iterator: &mut FileNodeDataIterator,
        context: &ParseContext,
        roots: &mut Roots,
        objects: &mut ExGuidMap<crate::onestore::Object>,
    ) -> (r: Result<Option<()>>)
        requires
            old(iterator).wf(),
            old(objects).wf(),
        ensures
            final(iterator).wf(),
            final(iterator).nodes() == old(iterator).nodes(),
            final(objects).wf(),
            match old(iterator).spec_peek() {
                Some(FileNodeData::RevisionManifestListStartFND { .. }) => match merged_list_spec(
                    old(iterator).nodes(),
                    old(iterator).index() + 1,
                    context.context_id,
                    context.store_view(),
                    old(objects)@,
                    *old(roots),
                ) {
                    Ok((os, rs, end)) => r == Ok::<Option<()>, Error>(Some(())) && final(objects)@ == os
                        && *final(roots) == rs && final(iterator).index() == end,
                    Err(e) => r == Err::<Option<()>, Error>(e),
                },
                _ => r == Ok::<Option<()>, Error>(None) && final(iterator).index() == old(iterator).index()
                    && *final(roots) == *old(roots) && final(objects)@ == old(objects)@,
            },
    {
        if let Some(FileNodeData::RevisionManifestListStartFND { .. }) = iterator.peek() {
            iterator.next();
            RevisionManifestList::parse_into(iterator, context, roots, objects)?;
            Ok(Some(()))
        } else {
            Ok(None)
        }
    }

    /// Reads the entries of the revision manifest list under the cursor
    /// into `roots` and `objects`.
    fn parse_into(
        iterator: &mut FileNodeDataIterator,
        context: &ParseContext,
        roots: &mut Roots,
        objects: &mut ExGuidMap<crate::onestore::Object>,
    ) -> (r: Result<()>)
        requires
            old(iterator).wf(),
            old(objects).wf(),
        ensures
            final(iterator).wf(),
            final(iterator).nodes() == old(iterator).nodes(),
            final(objects).wf(),
            match merged_list_spec(
                old(iterator).nodes(),
                old(iterator).index(),
                context.context_id,
                context.store_view(),
                old(objects)@,
                *old(roots),
            ) {
                Ok((os, rs, end)) => r is Ok && final(objects)@ == os && *final(roots) == rs
                    && final(iterator).index() == end,
                Err(e) => r == Err::<(), Error>(e),
            },
    {
        let ghost nodes = iterator.nodes();
        let ghost i0 = iterator.index();
        let mut revisions_seen: Vec<ExGuid> = Vec::new();
        loop
            invariant_except_break
                iterator.wf(),
                iterator.nodes() == nodes,
                nodes == old(iterator).nodes(),
                i0 == old(iterator).index(),
                objects.wf(),
                merged_list_spec(
                    nodes,
                    i0,
                    context.context_id,
                    context.store_view(),
                    old(objects)@,
                    *old(roots),
                ) == merged_list_body_spec(
                    nodes,
                    iterator.index(),
                    context.context_id,
                    context.store_view(),
                    revisions_seen@,
                    objects@,
                    *roots,
                ),
            ensures
                iterator.wf(),
                iterator.nodes() == nodes,
                nodes == old(iterator).nodes(),
                objects.wf(),
                merged_list_spec(
                    nodes,
                    i0,
                    context.context_id,
                    context.store_view(),
                    old(objects)@,
                    *old(roots),
                ) == Ok::<(Map<ExGuid, ObjectModel>, Roots, int), Error>(
                    (objects@, *roots, iterator.index()),
                ),
            decreases nodes.len() - iterator.index(),
        {
            let ghost at = iterator.index();
            let ghost seen0 = revisions_seen@;
            let ghost objects0 = objects@;
            let ghost roots0 = *roots;
            proof {
                reveal(merged_list_body_spec);
            }
            let current = match iterator.peek() {
                Some(n) => n,
                None => {
                    break;
                },
            };
            match current {
                FileNodeData::RevisionManifestEndFND => {
                    break;
                },
                FileNodeData::RevisionRoleDeclarationFND { .. } => {
                    iterator.next();
                },
                FileNodeData::RevisionRoleAndContextDeclarationFND { rid, .. } => {
                    if seen_contains(&revisions_seen, *rid) {
                        iterator.next();
                    } else {
                        return Err(Error::new(ErrorKind::UndeclaredLabelTarget));
                    }
                },
                _ => {
                    let revision_id = match Revision::try_parse_into(iterator, context, roots, objects)? {
                        Some(id) => id,
                        None => {
                            return Err(Error::new(ErrorKind::UnexpectedRevisionManifestListNode));
                        },
                    };
                    proof {
                        lemma_merged_revision_end(
                            nodes,
                            at,
                            context.context_id,
                            context.store_view(),
                            objects0,
                            roots0,
                        );
                    }
                    revisions_seen.push(revision_id);
                },
            }
        }
        Ok(())
    }
}


/// Reading the objects of a group keeps every object already present.
proof fn lemma_group_entries_keep(
    nodes: Seq<FileNodeData>,
    i: int,
    table: Map<u32, Guid>,
    context_id: ExGuid,
    store: Option<Seq<(Guid, FileBlobModel)>>,
    acc: Map<ExGuid, ObjectModel>,
    k: ExGuid,
)
    requires
        acc.contains_key(k),
    ensures
        object_group_entries_spec(nodes, i, table, context_id, store, acc) matches Ok((m, _))
            ==> m.contains_key(k) && m[k] == acc[k],
    decreases nodes.len() - i,
{
    if 0 <= i < nodes.len() {
        match nodes[i] {
            FileNodeData::ObjectGroupEndFND => {},
            FileNodeData::DataSignatureGroupDefinitionFND { .. } => {
                lemma_group_entries_keep(nodes, i + 1, table, context_id, store, acc, k);
            },
            n => match declaration_of(n) {
                None => {},
                Some(d) => match declared_object_spec(d, context_id, store) {
                    Err(_) => {},
                    Ok(m) => match table.get(d.oid.guid_index) {
                        None => {},
                        Some(g) => lemma_group_entries_keep(
                            nodes,
                            i + 1,
                            table,
                            context_id,
                            store,
                            insert_if_absent_spec(acc, ExGuid { guid: g, value: d.oid.n as u32 }, m),
                            k,
                        ),
                    },
                },
            },
        }
    }
}

/// Reading an object group list keeps every object already present.
proof fn lemma_group_list_keeps(
    nodes: Seq<FileNodeData>,
    i: int,
    context_id: ExGuid,
    store: Option<Seq<(Guid, FileBlobModel)>>,
    acc: Map<ExGuid, ObjectModel>,
    k: ExGuid,
)
    requires
        acc.contains_key(k),
    ensures
        object_group_list_spec(nodes, i, context_id, store, acc) matches Some(Ok((m, _)))
            ==> m.contains_key(k) && m[k] == acc[k],
{
    if 0 <= i < nodes.len() {
        match nodes[i] {
            FileNodeData::ObjectGroupListReferenceFND { list, .. } => {
                let ns = list.file_node_sequence@;
                if 0 < ns.len() && ns[0] is ObjectGroupStartFND && 1 < ns.len() && starts_id_table(ns[1]) {
                    match id_table_entries_spec(ns, 2, None, Map::empty()) {
                        Ok((table, j)) => lemma_group_entries_keep(ns, j, table, context_id, store, acc, k),
                        Err(_) => {},
                    }
                }
            },
            FileNodeData::ObjectGroupStartFND { .. } => {
                if i + 1 < nodes.len() && starts_id_table(nodes[i + 1]) {
                    match id_table_entries_spec(nodes, i + 2, None, Map::empty()) {
                        Ok((table, j)) => lemma_group_entries_keep(nodes, j, table, context_id, store, acc, k),
                        Err(_) => {},
                    }
                }
            },
            _ => {},
        }
    }
}

/// Reading the objects after a table keeps every object already present.
proof fn lemma_table_objects_keep(
    nodes: Seq<FileNodeData>,
    i: int,
    table: Map<u32, Guid>,
    context_id: ExGuid,
    store: Option<Seq<(Guid, FileBlobModel)>>,
    objects: Map<ExGuid, ObjectModel>,
    k: ExGuid,
)
    requires
        objects.contains_key(k),
    ensures
        merged_table_objects_spec(nodes, i, table, context_id, store, objects) matches Ok((m, _))
            ==> m.contains_key(k) && m[k] == objects[k],
    decreases nodes.len() - i,
{
    if 0 <= i < nodes.len() {
        match declaration_of(nodes[i]) {
            None => {},
            Some(d) => match declared_object_spec(d, context_id, store) {
                Err(_) => {},
                Ok(m) => match table.get(d.oid.guid_index) {
                    None => {},
                    Some(g) => lemma_table_objects_keep(
                        nodes,
                        skip_overrides(nodes, i + 1),
                        table,
                        context_id,
                        store,
                        insert_if_absent_spec(objects, ExGuid { guid: g, value: d.oid.n as u32 }, m),
                        k,
                    ),
                },
            },
        }
    }
}

/// Whether `after` holds every object of `before` unchanged, and every
/// root of `before` under the same role.
pub open spec fn keeps_entries(
    before_objects: Map<ExGuid, ObjectModel>,
    before_roots: Roots,
    after_objects: Map<ExGuid, ObjectModel>,
    after_roots: Roots,
    k: ExGuid,
    role: RootRole,
) -> bool {
    &&& before_objects.contains_key(k) ==> after_objects.contains_key(k) && after_objects[k]
        == before_objects[k]
    &&& before_roots.spec_get(role) is Some ==> after_roots.spec_get(role) == before_roots.spec_get(
        role,
    )
}

/// Reading the body of a revision keeps every object and root already
/// present.
proof fn lemma_body_keeps(
    nodes: Seq<FileNodeData>,
    i: int,
    context_id: ExGuid,
    store: Option<Seq<(Guid, FileBlobModel)>>,
    st: MergedState,
    k: ExGuid,
    role: RootRole,
)
    ensures
        merged_body_spec(nodes, i, context_id, store, st) matches Ok((fin, _)) ==> keeps_entries(
            st.objects,
            st.roots,
            fin.objects,
            fin.roots,
            k,
            role,
        ),
    decreases nodes.len() - i,
{
    reveal(merged_body_spec);
    if 0 <= i < nodes.len() && !(nodes[i] is RevisionManifestEndFND) {
        match object_group_list_spec(nodes, i, context_id, store, st.objects) {
            Some(Err(_)) => {},
            Some(Ok((objects, j))) => {
                if st.objects.contains_key(k) {
                    lemma_group_list_keeps(nodes, i, context_id, store, st.objects, k);
                }
                lemma_object_group_list_progress(nodes, i, context_id, store, st.objects);
                lemma_body_keeps(
                    nodes,
                    skip_overrides(nodes, j),
                    context_id,
                    store,
                    MergedState { objects, ..st },
                    k,
                    role,
                );
            },
            None => if starts_id_table(nodes[i]) {
                match id_table_entries_spec(nodes, i + 1, None, Map::empty()) {
                    Err(_) => {},
                    Ok((table, j)) => match merged_table_objects_spec(
                        nodes,
                        skip_signature(nodes, j),
                        table,
                        context_id,
                        store,
                        st.objects,
                    ) {
                        Err(_) => {},
                        Ok((objects, kk)) => {
                            if st.objects.contains_key(k) {
                                lemma_table_objects_keep(
                                    nodes,
                                    skip_signature(nodes, j),
                                    table,
                                    context_id,
                                    store,
                                    st.objects,
                                    k,
                                );
                            }
                            lemma_id_table_entries_end(nodes, i + 1, None, Map::empty());
                            lemma_merged_table_objects_end(
                                nodes,
                                skip_signature(nodes, j),
                                table,
                                context_id,
                                store,
                                st.objects,
                            );
                            lemma_body_keeps(
                                nodes,
                                kk,
                                context_id,
                                store,
                                MergedState { objects, roots: st.roots, last_table: Some(table) },
                                k,
                                role,
                            );
                        },
                    },
                }
            } else {
                match nodes[i] {
                    FileNodeData::RootObjectReference3FND { oid_root, root_role } => match root_role_spec(
                        root_role,
                    ) {
                        None => {},
                        Some(r) => lemma_body_keeps(
                            nodes,
                            i + 1,
                            context_id,
                            store,
                            MergedState { roots: with_root_if_absent(st.roots, r, oid_root), ..st },
                            k,
                            role,
                        ),
                    },
                    FileNodeData::RootObjectReference2FNDX { oid_root, root_role } => match st.last_table {
                        None => {},
                        Some(t) => match t.get(oid_root.guid_index) {
                            None => {},
                            Some(g) => match root_role_spec(root_role) {
                                None => {},
                                Some(r) => lemma_body_keeps(
                                    nodes,
                                    i + 1,
                                    context_id,
                                    store,
                                    MergedState {
                                        roots: with_root_if_absent(
                                            st.roots,
                                            r,
                                            ExGuid { guid: g, value: oid_root.n as u32 },
                                        ),
                                        ..st
                                    },
                                    k,
                                    role,
                                ),
                            },
                        },
                    },
                    FileNodeData::DataSignatureGroupDefinitionFND { .. } => lemma_body_keeps(
                        nodes,
                        i + 1,
                        context_id,
                        store,
                        st,
                        k,
                        role,
                    ),
                    _ => {},
                }
            },
        }
    }
}

/// Reading the entries of a revision manifest list keeps every object and
/// root already present.
proof fn lemma_list_body_keeps(
    nodes: Seq<FileNodeData>,
    i: int,
    context_id: ExGuid,
    store: Option<Seq<(Guid, FileBlobModel)>>,
    seen: Seq<ExGuid>,
    objects: Map<ExGuid, ObjectModel>,
    roots: Roots,
    k: ExGuid,
    role: RootRole,
)
    ensures
        merged_list_body_spec(nodes, i, context_id, store, seen, objects, roots) matches Ok(
            (os, rs, _),
        ) ==> keeps_entries(objects, roots, os, rs, k, role),
    decreases nodes.len() - i,
{
    reveal(merged_list_body_spec);
    if 0 <= i < nodes.len() {
        match nodes[i] {
            FileNodeData::RevisionManifestEndFND => {},
            FileNodeData::RevisionRoleDeclarationFND { .. } => {
                lemma_list_body_keeps(nodes, i + 1, context_id, store, seen, objects, roots, k, role);
            },
            FileNodeData::RevisionRoleAndContextDeclarationFND { rid, .. } => {
                if seen.contains(rid) {
                    lemma_list_body_keeps(nodes, i + 1, context_id, store, seen, objects, roots, k, role);
                }
            },
            n => if revision_start_of(n) is Some {
                match merged_revision_spec(nodes, i, context_id, store, objects, roots) {
                    Err(_) => {},
                    Ok((id, os, rs, j)) => {
                        lemma_body_keeps(
                            nodes,
                            i + 1,
                            context_id,
                            store,
                            MergedState { objects, roots, last_table: None },
                            k,
                            role,
                        );
                        lemma_merged_revision_end(nodes, i, context_id, store, objects, roots);
                        lemma_list_body_keeps(nodes, j, context_id, store, seen.push(id), os, rs, k, role);
                    },
                }
            },
        }
    }
}

/// Merging revisions keeps the first: reading a revision manifest list
/// into objects and roots never changes an object that was already there,
/// nor the root of a role that already had one.
pub proof fn law_merged_reading_keeps_earlier_entries(
    nodes: Seq<FileNodeData>,
    i: int,
    context_id: ExGuid,
    store: Option<Seq<(Guid, FileBlobModel)>>,
    objects: Map<ExGuid, ObjectModel>,
    roots: Roots,
    k: ExGuid,
    role: RootRole,
)
    ensures
        merged_list_spec(nodes, i, context_id, store, objects, roots) matches Ok((os, rs, _))
            ==> keeps_entries(objects, roots, os, rs, k, role),
{
    lemma_list_body_keeps(nodes, i, context_id, store, Seq::empty(), objects, roots, k, role);
}

} // verus!
