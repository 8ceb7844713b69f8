use crate::errors::{Error, ErrorKind, Result};
use crate::exguid::{nil_exguid, ExGuid};
use crate::exguid_map::{position_of, ExGuidMap};
use crate::file_node::{
    declaration_of, revision_of, FileNodeData, FileNodeDataIterator, ObjectRevision,
};
use crate::global_id_table::{
    id_table_entries_spec, lemma_id_table_entries_end, starts_id_table, GlobalIdTable,
};
use crate::guid::Guid;
use crate::id_mapping::IdMapping;
use crate::object::{declared_object_spec, Object};
use crate::object_group_list::{
    lemma_object_group_list_progress, object_group_list_spec, ObjectGroupList,
};
use crate::onestore::{
    no_roots, root_role_spec, with_root, FileBlobModel, ObjectModel, RootRole, Roots,
};
use crate::parse_context::ParseContext;
use vstd::prelude::*;

verus! {

/// One revision of an object space: the objects and roots that it adds or
/// replaces, on top of the revision it depends on.
///
/// See [MS-ONESTORE] 2.1.9.
#[derive(Debug)]
pub struct Revision {
    pub id: ExGuid,
    pub parent_id: ExGuid,
    pub context: Option<ExGuid>,
    pub role: u32,
    pub roots: Roots,
    pub objects: ExGuidMap<crate::onestore::Object>,
    pub id_map: IdMapping,
}

/// The content of a [`Revision`].
pub struct RevisionModel {
    pub id: ExGuid,
    pub parent_id: ExGuid,
    pub context: Option<ExGuid>,
    pub role: u32,
    pub roots: Roots,
    pub objects: Map<ExGuid, ObjectModel>,
    pub id_map: Map<u32, Guid>,
}

impl View for Revision {
    type V = RevisionModel;

    open spec fn view(&self) -> RevisionModel {
        RevisionModel {
            id: self.id,
            parent_id: self.parent_id,
            context: self.context,
            role: self.role,
            roots: self.roots,
            objects: self.objects@,
            id_map: self.id_map@,
        }
    }
}

/// The revision at position `p` of `s` has well-formed objects, and the
/// revision it depends on, if any, comes before it.
pub open spec fn revision_entry_ok(s: Seq<(ExGuid, Revision)>, p: int) -> bool {
    &&& s[p].1.objects.wf()
    &&& s[p].1.parent_id == nil_exguid() || exists|q: int|
        0 <= q < p && #[trigger] s[q].0 == s[p].1.parent_id
}

/// Revisions in the order in which they were read: each one's dependency
/// was read before it.
pub open spec fn revisions_ordered(revisions: &ExGuidMap<Revision>) -> bool {
    &&& revisions.wf()
    &&& forall|p: int|
        0 <= p < revisions.entries().len() ==> #[trigger] revision_entry_ok(revisions.entries(), p)
}

/// The contents of the revisions `s`, in order.
pub open spec fn models_of(s: Seq<(ExGuid, Revision)>) -> Seq<(ExGuid, RevisionModel)> {
    s.map_values(|e: (ExGuid, Revision)| (e.0, e.1@))
}

/// The contents of the revisions read so far, in the order read.
pub open spec fn revision_models(revisions: &ExGuidMap<Revision>) -> Seq<(ExGuid, RevisionModel)> {
    models_of(revisions.entries())
}

/// A revision has the same position among the contents of revisions as
/// among the revisions.
pub proof fn lemma_models_position(s: Seq<(ExGuid, Revision)>, k: ExGuid)
    ensures
        position_of(models_of(s), k) == position_of(s, k),
        models_of(s).len() == s.len(),
    decreases s.len(),
{
    if s.len() > 0 {
        assert(models_of(s).drop_last() =~= models_of(s.drop_last()));
        lemma_models_position(s.drop_last(), k);
    }
}

/// The object `object_id` as the revision at position `pos` of `s` or,
/// failing that, the revisions it depends on hold it.
pub open spec fn dependency_lookup(s: Seq<(ExGuid, RevisionModel)>, pos: int, object_id: ExGuid) -> Option<
    ObjectModel,
>
    decreases pos,
{
    if !(0 <= pos < s.len()) {
        None
    } else if s[pos].1.objects.contains_key(object_id) {
        Some(s[pos].1.objects[object_id])
    } else {
        let parent = s[pos].1.parent_id;
        if parent == nil_exguid() {
            None
        } else {
            match position_of(s, parent) {
                Some(q) => if 0 <= q < pos {
                    dependency_lookup(s, q, object_id)
                } else {
                    None
                },
                None => None,
            }
        }
    }
}

/// The object `object_id` as the revision `revision_id` and the revisions it
/// depends on hold it: the most recent one that holds it wins.
pub open spec fn find_dependency_spec(
    s: Seq<(ExGuid, RevisionModel)>,
    revision_id: ExGuid,
    object_id: ExGuid,
) -> Option<ObjectModel> {
    if revision_id == nil_exguid() {
        None
    } else {
        match position_of(s, revision_id) {
            Some(p) => dependency_lookup(s, p, object_id),
            None => None,
        }
    }
}

/// What a revision is read in: its object space, the loaded files, the
/// revision it depends on and the revisions read before it.
pub struct RevisionEnv {
    pub context_id: ExGuid,
    pub store: Option<Seq<(Guid, FileBlobModel)>>,
    pub parent_id: ExGuid,
    pub revisions: Seq<(ExGuid, RevisionModel)>,
    pub parent_map: Option<Map<u32, Guid>>,
}

/// What a revision has gathered so far.
pub struct RevisionState {
    pub objects: Map<ExGuid, ObjectModel>,
    pub roots: Roots,
    pub id_map: Map<u32, Guid>,
    pub last_table: Option<Map<u32, Guid>>,
}

/// The position after `j`, past a reference-count override node if one is
/// at `j`.
pub open spec fn skip_overrides(nodes: Seq<FileNodeData>, j: int) -> int {
    if 0 <= j < nodes.len() && nodes[j] is ObjectInfoDependencyOverridesFND {
        j + 1
    } else {
        j
    }
}

/// The position after `j`, past a data signature group definition if one
/// is at `j`.
pub open spec fn skip_signature(nodes: Seq<FileNodeData>, j: int) -> int {
    if 0 <= j < nodes.len() && nodes[j] is DataSignatureGroupDefinitionFND {
        j + 1
    } else {
        j
    }
}

/// What a new revision of the properties of object `rv.oid` makes of
/// `objects`: the object keeps the type that the revision or its
/// dependencies declared, and takes the new properties.
pub open spec fn apply_revision_spec(
    rv: ObjectRevision,
    table: Map<u32, Guid>,
    env: RevisionEnv,
    objects: Map<ExGuid, ObjectModel>,
) -> Result<Map<ExGuid, ObjectModel>> {
    match table.get(rv.oid.guid_index) {
        None => Err(Error { kind: ErrorKind::UnresolvedCompactId { guid_index: rv.oid.guid_index } }),
        Some(g) => {
            let id = ExGuid { guid: g, value: rv.oid.n as u32 };
            let declared = if objects.contains_key(id) {
                Some(objects[id])
            } else {
                find_dependency_spec(env.revisions, env.parent_id, id)
            };
            match declared {
                None => Err(Error { kind: ErrorKind::UndeclaredObjectRevision }),
                Some(o) => Ok(
                    objects.insert(
                        id,
                        ObjectModel {
                            context_id: env.context_id,
                            jc_id: o.jc_id,
                            props: rv.property_set@,
                            file_data: None,
                        },
                    ),
                ),
            }
        },
    }
}

/// What the objects and object revisions that follow a global
/// identification table, from node `i`, make of `objects`, with the
/// position reached.
pub open spec fn table_objects_spec(
    nodes: Seq<FileNodeData>,
    i: int,
    table: Map<u32, Guid>,
    env: RevisionEnv,
    objects: Map<ExGuid, ObjectModel>,
) -> Result<(Map<ExGuid, ObjectModel>, int)>
    decreases nodes.len() - i,
{
    if !(0 <= i < nodes.len()) {
        Ok((objects, i))
    } else {
        match declaration_of(nodes[i]) {
            Some(d) => match declared_object_spec(d, env.context_id, env.store) {
                Err(e) => Err(e),
                Ok(m) => match table.get(d.oid.guid_index) {
                    None => Err(
                        Error { kind: ErrorKind::UnresolvedCompactId { guid_index: d.oid.guid_index } },
                    ),
                    Some(g) => table_objects_spec(
                        nodes,
                        skip_overrides(nodes, i + 1),
                        table,
                        env,
                        objects.insert(ExGuid { guid: g, value: d.oid.n as u32 }, m),
                    ),
                },
            },
            None => match revision_of(nodes[i]) {
                Some(rv) => match apply_revision_spec(rv, table, env, objects) {
                    Err(e) => Err(e),
                    Ok(m) => table_objects_spec(nodes, skip_overrides(nodes, i + 1), table, env, m),
                },
                None => Ok((objects, i)),
            },
        }
    }
}

/// Reading the objects after a table never moves backwards.
pub proof fn lemma_table_objects_end(
    nodes: Seq<FileNodeData>,
    i: int,
    table: Map<u32, Guid>,
    env: RevisionEnv,
    objects: Map<ExGuid, ObjectModel>,
)
    ensures
        table_objects_spec(nodes, i, table, env, objects) matches Ok((_, end)) ==> end >= i && (i <= nodes.len() ==> end <= nodes.len()),
    decreases nodes.len() - i,
{
    if 0 <= i < nodes.len() {
        match declaration_of(nodes[i]) {
            Some(d) => match declared_object_spec(d, env.context_id, env.store) {
                Err(_) => {},
                Ok(m) => match table.get(d.oid.guid_index) {
                    None => {},
                    Some(g) => lemma_table_objects_end(
                        nodes,
                        skip_overrides(nodes, i + 1),
                        table,
                        env,
                        objects.insert(ExGuid { guid: g, value: d.oid.n as u32 }, m),
                    ),
                },
            },
            None => match revision_of(nodes[i]) {
                Some(rv) => match apply_revision_spec(rv, table, env, objects) {
                    Err(_) => {},
                    Ok(m) => lemma_table_objects_end(nodes, skip_overrides(nodes, i + 1), table, env, m),
                },
                None => {},
            },
        }
    }
}

/// What the nodes of a revision, from node `i` up to and including its
/// end node, make of the state `st`, with the position after them.
#[verifier::opaque]
pub open spec fn revision_body_spec(
    nodes: Seq<FileNodeData>,
    i: int,
    env: RevisionEnv,
    st: RevisionState,
) -> Result<(RevisionState, int)>
    decreases nodes.len() - i,
{
    if !(0 <= i < nodes.len()) {
        Ok((st, i))
    } else if nodes[i] is RevisionManifestEndFND {
        Ok((st, i + 1))
    } else {
        match object_group_list_spec(nodes, i, env.context_id, env.store, st.objects) {
            Some(Err(e)) => Err(e),
            Some(Ok((objects, j))) => {
                proof {
                    lemma_object_group_list_progress(nodes, i, env.context_id, env.store, st.objects);
                }
                revision_body_spec(
                    nodes,
                    skip_overrides(nodes, j),
                    env,
                    RevisionState { objects, ..st },
                )
            },
            None => if starts_id_table(nodes[i]) {
                match id_table_entries_spec(nodes, i + 1, env.parent_map, Map::empty()) {
                    Err(e) => Err(e),
                    Ok((table, j)) => match table_objects_spec(
                        nodes,
                        skip_signature(nodes, j),
                        table,
                        env,
                        st.objects,
                    ) {
                        Err(e) => Err(e),
                        Ok((objects, k)) => {
                            proof {
                                lemma_id_table_entries_end(nodes, i + 1, env.parent_map, Map::empty());
                                lemma_table_objects_end(
                                    nodes,
                                    skip_signature(nodes, j),
                                    table,
                                    env,
                                    st.objects,
                                );
                            }
                            revision_body_spec(
                                nodes,
                                k,
                                env,
                                RevisionState {
                                    objects,
                                    roots: st.roots,
                                    id_map: st.id_map.union_prefer_right(table),
                                    last_table: Some(table),
                                },
                            )
                        },
                    },
                }
            } else {
                match nodes[i] {
                    FileNodeData::RootObjectReference3FND { oid_root, root_role } => match root_role_spec(
                        root_role,
                    ) {
                        None => Err(Error { kind: ErrorKind::InvalidRootRole { role: root_role } }),
                        Some(role) => revision_body_spec(
                            nodes,
                            i + 1,
                            env,
                            RevisionState { roots: with_root(st.roots, role, oid_root), ..st },
                        ),
                    },
                    FileNodeData::RootObjectReference2FNDX { oid_root, root_role } => match st.last_table {
                        None => Err(Error { kind: ErrorKind::MissingRootIdTable }),
                        Some(t) => match t.get(oid_root.guid_index) {
                            None => Err(
                                Error {
                                    kind: ErrorKind::UnresolvedCompactId {
                                        guid_index: oid_root.guid_index,
                                    },
                                },
                            ),
                            Some(g) => match root_role_spec(root_role) {
                                None => Err(
                                    Error { kind: ErrorKind::InvalidRootRole { role: root_role } },
                                ),
                                Some(role) => revision_body_spec(
                                    nodes,
                                    i + 1,
                                    env,
                                    RevisionState {
                                        roots: with_root(
                                            st.roots,
                                            role,
                                            ExGuid { guid: g, value: oid_root.n as u32 },
                                        ),
                                        ..st
                                    },
                                ),
                            },
                        },
                    },
                    FileNodeData::DataSignatureGroupDefinitionFND { .. } => revision_body_spec(
                        nodes,
                        i + 1,
                        env,
                        st,
                    ),
                    _ => Err(Error { kind: ErrorKind::UnexpectedRevisionNode }),
                }
            },
        }
    }
}

/// Reading the body of a revision never moves backwards.
pub proof fn lemma_revision_body_end(
    nodes: Seq<FileNodeData>,
    i: int,
    env: RevisionEnv,
    st: RevisionState,
)
    ensures
        revision_body_spec(nodes, i, env, st) matches Ok((_, end)) ==> end >= i && (i <= nodes.len()
            ==> end <= nodes.len()),
    decreases nodes.len() - i,
{
    reveal(revision_body_spec);
    if 0 <= i < nodes.len() && !(nodes[i] is RevisionManifestEndFND) {
        match object_group_list_spec(nodes, i, env.context_id, env.store, st.objects) {
            Some(Err(_)) => {},
            Some(Ok((objects, j))) => {
                lemma_object_group_list_progress(nodes, i, env.context_id, env.store, st.objects);
                lemma_revision_body_end(
                    nodes,
                    skip_overrides(nodes, j),
                    env,
                    RevisionState { objects, ..st },
                );
            },
            None => if starts_id_table(nodes[i]) {
                match id_table_entries_spec(nodes, i + 1, env.parent_map, Map::empty()) {
                    Err(_) => {},
                    Ok((table, j)) => match table_objects_spec(
                        nodes,
                        skip_signature(nodes, j),
                        table,
                        env,
                        st.objects,
                    ) {
                        Err(_) => {},
                        Ok((objects, k)) => {
                            lemma_id_table_entries_end(nodes, i + 1, env.parent_map, Map::empty());
                            lemma_table_objects_end(
                                nodes,
                                skip_signature(nodes, j),
                                table,
                                env,
                                st.objects,
                            );
                            lemma_revision_body_end(
                                nodes,
                                k,
                                env,
                                RevisionState {
                                    objects,
                                    roots: st.roots,
                                    id_map: st.id_map.union_prefer_right(table),
                                    last_table: Some(table),
                                },
                            );
                        },
                    },
                }
            } else {
                match nodes[i] {
                    FileNodeData::RootObjectReference3FND { oid_root, root_role } => {
                        match root_role_spec(root_role) {
                            None => {},
                            Some(role) => lemma_revision_body_end(
                                nodes,
                                i + 1,
                                env,
                                RevisionState { roots: with_root(st.roots, role, oid_root), ..st },
                            ),
                        }
                    },
                    FileNodeData::RootObjectReference2FNDX { oid_root, root_role } => {
                        match st.last_table {
                            None => {},
                            Some(t) => match t.get(oid_root.guid_index) {
                                None => {},
                                Some(g) => match root_role_spec(root_role) {
                                    None => {},
                                    Some(role) => lemma_revision_body_end(
                                        nodes,
                                        i + 1,
                                        env,
                                        RevisionState {
                                            roots: with_root(
                                                st.roots,
                                                role,
                                                ExGuid { guid: g, value: oid_root.n as u32 },
                                            ),
                                            ..st
                                        },
                                    ),
                                },
                            },
                        }
                    },
                    FileNodeData::DataSignatureGroupDefinitionFND { .. } => {
                        lemma_revision_body_end(nodes, i + 1, env, st);
                    },
                    _ => {},
                }
            },
        }
    }
}

/// The identifier, dependency, role and context that a revision manifest
/// start node gives, if `node` is one.
pub open spec fn revision_start_of(node: FileNodeData) -> Option<(ExGuid, ExGuid, u32, Option<ExGuid>)> {
    match node {
        FileNodeData::RevisionManifestStart4FND(d) => Some(
            (d.rid, d.rid_dependent, d.revision_role, None),
        ),
        FileNodeData::RevisionManifestStart6FND(d) => Some(
            (d.rid, d.rid_dependent, d.revision_role, None),
        ),
        FileNodeData::RevisionManifestStart7FND(d) => Some(
            (d.base.rid, d.base.rid_dependent, d.base.revision_role, Some(d.gctxid)),
        ),
        _ => None,
    }
}

/// A revision read successfully ends after its start node, within its
/// nodes.
pub proof fn lemma_revision_end(
    nodes: Seq<FileNodeData>,
    i: int,
    context_id: ExGuid,
    store: Option<Seq<(Guid, FileBlobModel)>>,
    revisions: Seq<(ExGuid, RevisionModel)>,
)
    ensures
        revision_spec(nodes, i, context_id, store, revisions) matches Ok((_, end)) ==> i < end
            <= nodes.len(),
{
    if 0 <= i < nodes.len() {
        match revision_start_of(nodes[i]) {
            Some((id, parent_id, role, context)) => {
                let parent = if parent_id == nil_exguid() {
                    None
                } else {
                    position_of(revisions, parent_id)
                };
                let parent_map = match parent {
                    Some(p) => Some(revisions[p].1.id_map),
                    None => None,
                };
                let env = RevisionEnv { context_id, store, parent_id, revisions, parent_map };
                let st = RevisionState {
                    objects: Map::empty(),
                    roots: no_roots(),
                    id_map: match parent_map {
                        Some(m) => m,
                        None => Map::empty(),
                    },
                    last_table: None,
                };
                lemma_revision_body_end(nodes, i + 1, env, st);
            },
            None => {},
        }
    }
}

/// The revision with the given identity whose body gave `body`.
pub open spec fn finish_revision(
    body: Result<(RevisionState, int)>,
    id: ExGuid,
    parent_id: ExGuid,
    role: u32,
    context: Option<ExGuid>,
) -> Result<(RevisionModel, int)> {
    match body {
        Err(e) => Err(e),
        Ok((st, end)) => Ok(
            (
                RevisionModel {
                    id,
                    parent_id,
                    context,
                    role,
                    roots: st.roots,
                    objects: st.objects,
                    id_map: st.id_map,
                },
                end,
            ),
        ),
    }
}

/// The revision that starts at node `i`, read in the object space
/// `context_id` after the revisions `revisions`, with the position after
/// it.
pub open spec fn revision_spec(
    nodes: Seq<FileNodeData>,
    i: int,
    context_id: ExGuid,
    store: Option<Seq<(Guid, FileBlobModel)>>,
    revisions: Seq<(ExGuid, RevisionModel)>,
) -> Result<(RevisionModel, int)> {
    match if 0 <= i < nodes.len() {
        revision_start_of(nodes[i])
    } else {
        None
    } {
        None => Err(Error { kind: ErrorKind::InvalidRevisionStart }),
        Some((id, parent_id, role, context)) => {
            let parent = if parent_id == nil_exguid() {
                None
            } else {
                position_of(revisions, parent_id)
            };
            if parent_id != nil_exguid() && parent is None {
                Err(Error { kind: ErrorKind::UndeclaredDependency })
            } else {
                let parent_map = match parent {
                    Some(p) => Some(revisions[p].1.id_map),
                    None => None,
                };
                let env = RevisionEnv { context_id, store, parent_id, revisions, parent_map };
                let st = RevisionState {
                    objects: Map::empty(),
                    roots: no_roots(),
                    id_map: match parent_map {
                        Some(m) => m,
                        None => Map::empty(),
                    },
                    last_table: None,
                };
                finish_revision(revision_body_spec(nodes, i + 1, env, st), id, parent_id, role, context)
            }
        },
    }
}

/// The object `object_id` as the revision `revision_id` and the revisions
/// it depends on hold it.
pub fn find_dependency_object<'a>(
    revisions: &'a ExGuidMap<Revision>,
    revision_id: ExGuid,
    object_id: ExGuid,
) -> (r: Option<&'a crate::onestore::Object>)
    requires
        revisions_ordered(revisions),
    ensures
        match find_dependency_spec(revision_models(revisions), revision_id, object_id) {
            Some(m) => r matches Some(o) && o@ == m,
            None => r is None,
        },
{
    let ghost s = revisions.entries();
    let ghost ms = revision_models(revisions);
    proof {
        revisions.lemma_view(revision_id);
        lemma_models_position(s, revision_id);
    }
    let mut rid = revision_id;
    let ghost mut bound: int = s.len() as int;
    loop
        invariant
            s == revisions.entries(),
            ms == revision_models(revisions),
            ms.len() == s.len(),
            revisions_ordered(revisions),
            0 <= bound <= s.len(),
            find_dependency_spec(ms, revision_id, object_id) == find_dependency_spec(ms, rid, object_id),
            rid != nil_exguid() ==> (position_of(s, rid) matches Some(p) ==> p < bound),
        decreases bound,
    {
        if rid.is_nil() {
            return None;
        }
        proof {
            revisions.lemma_view(rid);
            lemma_models_position(s, rid);
        }
        let revision = match revisions.get(&rid) {
            Some(rev) => rev,
            None => {
                return None;
            },
        };
        let ghost p = position_of(s, rid)->0;
        proof {
            assert(revision_entry_ok(s, p));
        }
        if let Some(object) = revision.objects.get(&object_id) {
            return Some(object);
        }
        let parent = revision.parent_id;
        proof {
            if parent != nil_exguid() {
                let q = choose|q: int| 0 <= q < p && #[trigger] s[q].0 == parent;
                assert(position_of(s, s[q].0) == Some(q));
                lemma_models_position(s, parent);
            }
        }
        rid = parent;
        proof {
            bound = p;
        }
    }
}

/// Applies a new revision of an object's properties to `objects`.
fn apply_object_revision(
    revision: &ObjectRevision,
    global_id_table: &GlobalIdTable,
    context: &ParseContext,
    parent_id: ExGuid,
    revisions: &ExGuidMap<Revision>,
    objects: &mut ExGuidMap<crate::onestore::Object>,
    Ghost(env): Ghost<RevisionEnv>,
) -> (r: Result<()>)
    requires
        revisions_ordered(revisions),
        old(objects).wf(),
        env.context_id == context.context_id,
        env.parent_id == parent_id,
        env.revisions == revision_models(revisions),
    ensures
        final(objects).wf(),
        match apply_revision_spec(*revision, global_id_table.id_map@, env, old(objects)@) {
            Ok(m) => r is Ok && final(objects)@ == m,
            Err(e) => r == Err::<(), Error>(e),
        },
{
    let id = global_id_table.resolve_id(&revision.oid)?;
    let jc_id = match objects.get(&id) {
        Some(object) => object.jc_id,
        None => match find_dependency_object(revisions, parent_id, id) {
            Some(object) => object.jc_id,
            None => {
                return Err(Error::new(ErrorKind::UndeclaredObjectRevision));
            },
        },
    };
    let object = crate::onestore::Object {
        context_id: context.context_id,
        jc_id,
        props: revision.property_set.duplicate(),
        file_data: None,
    };
    objects.insert(id, object);
    Ok(())
}

/// Moves the cursor past a reference-count override node, if one is
/// under it.
fn skip_overrides_node(iterator: &mut FileNodeDataIterator)
    requires
        old(iterator).wf(),
    ensures
        final(iterator).wf(),
        final(iterator).nodes() == old(iterator).nodes(),
        final(iterator).index() == skip_overrides(old(iterator).nodes(), old(iterator).index()),
{
    if let Some(FileNodeData::ObjectInfoDependencyOverridesFND) = iterator.peek() {
        iterator.next();
    }
}

/// Reads the objects and object revisions that follow a global
/// identification table.
fn parse_table_objects(
    iterator: &mut FileNodeDataIterator,
    global_id_table: &GlobalIdTable,
    context: &ParseContext,
    parent_id: ExGuid,
    revisions: &ExGuidMap<Revision>,
    objects: &mut ExGuidMap<crate::onestore::Object>,
    Ghost(env): Ghost<RevisionEnv>,
) -> (r: Result<()>)
    requires
        old(iterator).wf(),
        revisions_ordered(revisions),
        old(objects).wf(),
        env.context_id == context.context_id,
        env.store == context.store_view(),
        env.parent_id == parent_id,
        env.revisions == revision_models(revisions),
    ensures
        final(iterator).wf(),
        final(iterator).nodes() == old(iterator).nodes(),
        final(objects).wf(),
        match table_objects_spec(
            old(iterator).nodes(),
            old(iterator).index(),
            global_id_table.id_map@,
            env,
            old(objects)@,
        ) {
            Ok((m, end)) => r is Ok && final(objects)@ == m && final(iterator).index() == end,
            Err(e) => r == Err::<(), Error>(e),
        },
{
    let ghost nodes = iterator.nodes();
    let ghost table = global_id_table.id_map@;
    loop
        invariant_except_break
            iterator.wf(),
            iterator.nodes() == nodes,
            nodes == old(iterator).nodes(),
            objects.wf(),
            revisions_ordered(revisions),
            table == global_id_table.id_map@,
            env.context_id == context.context_id,
            env.store == context.store_view(),
            env.parent_id == parent_id,
            env.revisions == revision_models(revisions),
            table_objects_spec(nodes, old(iterator).index(), table, env, old(objects)@)
                == table_objects_spec(nodes, iterator.index(), table, env, objects@),
        ensures
            iterator.wf(),
            iterator.nodes() == nodes,
            nodes == old(iterator).nodes(),
            objects.wf(),
            table_objects_spec(nodes, old(iterator).index(), table, env, old(objects)@) == Ok::<
                (Map<ExGuid, ObjectModel>, int),
                Error,
            >((objects@, iterator.index())),
        decreases nodes.len() - iterator.index(),
    {
        match Object::try_parse(iterator, context)? {
            Some(object) => {
                let id = global_id_table.resolve_id(&object.compact_id)?;
                objects.insert(id, object.data);
            },
            None => {
                let revision = match iterator.peek() {
                    Some(FileNodeData::ObjectRevisionWithRefCountFNDX(rev)) => rev,
                    Some(FileNodeData::ObjectRevisionWithRefCount2FNDX(rev)) => rev,
                    _ => {
                        break;
                    },
                };
                iterator.next();
                apply_object_revision(
                    revision,
                    global_id_table,
                    context,
                    parent_id,
                    revisions,
                    objects,
                    Ghost(env),
                )?;
            },
        }
        skip_overrides_node(iterator);
    }
    Ok(())
}


/// The state of a revision being read.
struct RevisionBuilder {
    roots: Roots,
    objects: ExGuidMap<crate::onestore::Object>,
    id_map: IdMapping,
    last_table: Option<GlobalIdTable>,
}

impl RevisionBuilder {
    spec fn state(&self) -> RevisionState {
        RevisionState {
            objects: self.objects@,
            roots: self.roots,
            id_map: self.id_map@,
            last_table: match self.last_table {
                Some(t) => Some(t.id_map@),
                None => None,
            },
        }
    }

    /// Reads the next entry of the revision under the cursor; `true` once
    /// the revision has ended.
    fn step(
        &mut self,
        iterator: &mut FileNodeDataIterator,
        context: &ParseContext,
        parent_id: ExGuid,
        parent_id_map: Option<&IdMapping>,
        revisions: &ExGuidMap<Revision>,
        Ghost(env): Ghost<RevisionEnv>,
    ) -> (r: Result<bool>)
        requires
            old(iterator).wf(),
            old(self).objects.wf(),
            revisions_ordered(revisions),
            env.context_id == context.context_id,
            env.store == context.store_view(),
            env.parent_id == parent_id,
            env.revisions == revision_models(revisions),
            env.parent_map == match parent_id_map {
                Some(p) => Some(p@),
                None => None::<Map<u32, Guid>>,
            },
        ensures
            final(iterator).wf(),
            final(iterator).nodes() == old(iterator).nodes(),
            final(self).objects.wf(),
            match r {
                Ok(true) => revision_body_spec(
                    old(iterator).nodes(),
                    old(iterator).index(),
                    env,
                    old(self).state(),
                ) == Ok::<(RevisionState, int), Error>((final(self).state(), final(iterator).index())),
                Ok(false) => final(iterator).index() > old(iterator).index() && revision_body_spec(
                    old(iterator).nodes(),
                    old(iterator).index(),
                    env,
                    old(self).state(),
                ) == revision_body_spec(
                    final(iterator).nodes(),
                    final(iterator).index(),
                    env,
                    final(self).state(),
                ),
                Err(e) => revision_body_spec(
                    old(iterator).nodes(),
                    old(iterator).index(),
                    env,
                    old(self).state(),
                ) == Err::<(RevisionState, int), Error>(e),
            },
    {
        let ghost nodes = iterator.nodes();
        let ghost at = iterator.index();
        let ghost st = self.state();
        proof {
            reveal(revision_body_spec);
        }
        let current = match iterator.peek() {
            Some(n) => n,
            None => {
                return Ok(true);
            },
        };
        if let FileNodeData::RevisionManifestEndFND = current {
            iterator.next();
            return Ok(true);
        }
        let grouped = ObjectGroupList::try_parse_into(iterator, context, &mut self.objects)?;
        if grouped.is_some() {
            proof {
                lemma_object_group_list_progress(nodes, at, env.context_id, env.store, st.objects);
            }
            skip_overrides_node(iterator);
            return Ok(false);
        }
        let table = GlobalIdTable::try_parse(iterator, parent_id_map)?;
        match table {
            Some(table) => {
                self.id_map.merge(&table.id_map);
                if let Some(FileNodeData::DataSignatureGroupDefinitionFND { .. }) = iterator.peek() {
                    iterator.next();
                }
                let ghost j = iterator.index();
                parse_table_objects(
                    iterator,
                    &table,
                    context,
                    parent_id,
                    revisions,
                    &mut self.objects,
                    Ghost(env),
                )?;
                proof {
                    lemma_id_table_entries_end(nodes, at + 1, env.parent_map, Map::empty());
                    lemma_table_objects_end(nodes, j, table.id_map@, env, st.objects);
                }
                self.last_table = Some(table);
                Ok(false)
            },
            None => {
                match current {
                    FileNodeData::RootObjectReference3FND { oid_root, root_role } => {
                        iterator.next();
                        let role = RootRole::try_from(*root_role)?;
                        self.roots.insert(role, *oid_root);
                    },
                    FileNodeData::RootObjectReference2FNDX { oid_root, root_role } => {
                        iterator.next();
                        let oid = match &self.last_table {
                            Some(t) => t.resolve_id(oid_root)?,
                            None => {
                                return Err(Error::new(ErrorKind::MissingRootIdTable));
                            },
                        };
                        let role = RootRole::try_from(*root_role)?;
                        self.roots.insert(role, oid);
                    },
                    FileNodeData::DataSignatureGroupDefinitionFND { .. } => {
                        iterator.next();
                    },
                    _ => {
                        return Err(Error::new(ErrorKind::UnexpectedRevisionNode));
                    },
                }
                Ok(false)
            },
        }
    }
}

/// Reads the revision that starts under the cursor, if one does; leaves
/// the cursor where it is otherwise.
pub fn try_parse(
    iterator: &mut FileNodeDataIterator,
    context: &ParseContext,
    revisions: &ExGuidMap<Revision>,
) -> (r: Result<Option<Revision>>)
    requires
        old(iterator).wf(),
        revisions_ordered(revisions),
    ensures
        final(iterator).wf(),
        final(iterator).nodes() == old(iterator).nodes(),
        match old(iterator).spec_peek() {
            Some(n) if revision_start_of(n) is Some => match revision_spec(
                old(iterator).nodes(),
                old(iterator).index(),
                context.context_id,
                context.store_view(),
                revision_models(revisions),
            ) {
                Ok((m, end)) => r matches Ok(Some(rev)) && rev@ == m && rev.objects.wf()
                    && final(iterator).index() == end,
                Err(e) => r == Err::<Option<Revision>, Error>(e),
            },
            _ => r matches Ok(None) && final(iterator).index() == old(iterator).index(),
        },
{
    let starts = match iterator.peek() {
        Some(FileNodeData::RevisionManifestStart4FND(_)) => true,
        Some(FileNodeData::RevisionManifestStart6FND(_)) => true,
        Some(FileNodeData::RevisionManifestStart7FND(_)) => true,
        _ => false,
    };
    if starts {
        let revision = parse(iterator, context, revisions)?;
        Ok(Some(revision))
    } else {
        Ok(None)
    }
}

/// Reads the revision that starts under the cursor.
fn parse(
    iterator: &mut FileNodeDataIterator,
    context: &ParseContext,
    revisions: &ExGuidMap<Revision>,
) -> (r: Result<Revision>)
    requires
        old(iterator).wf(),
        revisions_ordered(revisions),
    ensures
        final(iterator).wf(),
        final(iterator).nodes() == old(iterator).nodes(),
        match revision_spec(
            old(iterator).nodes(),
            old(iterator).index(),
            context.context_id,
            context.store_view(),
            revision_models(revisions),
        ) {
            Ok((m, end)) => r matches Ok(rev) && rev@ == m && rev.objects.wf() && final(iterator).index() == end,
            Err(e) => r == Err::<Revision, Error>(e),
        },
{
    let ghost nodes = iterator.nodes();
    let ghost i0 = iterator.index();
    let (id, parent_id, role, revision_context) = match iterator.next() {
        Some(FileNodeData::RevisionManifestStart4FND(data)) => (
            data.rid,
            data.rid_dependent,
            data.revision_role,
            None,
        ),
        Some(FileNodeData::RevisionManifestStart6FND(data)) => (
            data.rid,
            data.rid_dependent,
            data.revision_role,
            None,
        ),
        Some(FileNodeData::RevisionManifestStart7FND(data)) => (
            data.base.rid,
            data.base.rid_dependent,
            data.base.revision_role,
            Some(data.gctxid),
        ),
        _ => {
            return Err(Error::new(ErrorKind::InvalidRevisionStart));
        },
    };
    proof {
        revisions.lemma_view(parent_id);
        lemma_models_position(revisions.entries(), parent_id);
    }
    let parent: Option<&Revision> = if parent_id.is_nil() {
        None
    } else {
        match revisions.get(&parent_id) {
            Some(p) => Some(p),
            None => {
                return Err(Error::new(ErrorKind::UndeclaredDependency));
            },
        }
    };
    let mut revision_id_map = match parent {
        Some(p) => p.id_map.duplicate(),
        None => IdMapping::new(),
    };
    let parent_id_map: Option<&IdMapping> = match parent {
        Some(p) => Some(&p.id_map),
        None => None,
    };
    let ghost parent_map = match parent {
        Some(p) => Some(p.id_map@),
        None => None,
    };
    let ghost env = RevisionEnv {
        context_id: context.context_id,
        store: context.store_view(),
        parent_id,
        revisions: revision_models(revisions),
        parent_map,
    };
    let mut builder = RevisionBuilder {
        roots: Roots::new(),
        objects: ExGuidMap::new(),
        id_map: revision_id_map,
        last_table: None,
    };
    let ghost st0 = builder.state();
    let ghost body_start = iterator.index();
    proof {
        assert(revision_spec(nodes, i0, context.context_id, context.store_view(), revision_models(revisions))
            == finish_revision(
            revision_body_spec(nodes, body_start, env, st0),
            id,
            parent_id,
            role,
            revision_context,
        ));
    }
    loop
        invariant_except_break
            iterator.wf(),
            iterator.nodes() == nodes,
            nodes == old(iterator).nodes(),
            i0 == old(iterator).index(),
            revision_spec(nodes, i0, context.context_id, context.store_view(), revision_models(revisions))
                == finish_revision(
                revision_body_spec(nodes, body_start, env, st0),
                id,
                parent_id,
                role,
                revision_context,
            ),
            builder.objects.wf(),
            revisions_ordered(revisions),
            env.context_id == context.context_id,
            env.store == context.store_view(),
            env.parent_id == parent_id,
            env.revisions == revision_models(revisions),
            env.parent_map == parent_map,
            parent_map == match parent_id_map {
                Some(p) => Some(p@),
                None => None::<Map<u32, Guid>>,
            },
            revision_body_spec(nodes, body_start, env, st0) == revision_body_spec(
                nodes,
                iterator.index(),
                env,
                builder.state(),
            ),
        ensures
            iterator.wf(),
            iterator.nodes() == nodes,
            builder.objects.wf(),
            revision_body_spec(nodes, body_start, env, st0) == Ok::<(RevisionState, int), Error>(
                (builder.state(), iterator.index()),
            ),
        decreases nodes.len() - iterator.index(),
    {
        let done = builder.step(
            iterator,
            context,
            parent_id,
            parent_id_map,
            revisions,
            Ghost(env),
        )?;
        if done {
            break;
        }
    }
    let RevisionBuilder { roots, objects, id_map: revision_id_map, .. } = builder;
    Ok(
        Revision {
            id,
            parent_id,
            context: revision_context,
            role,
            roots,
            objects,
            id_map: revision_id_map,
        },
    )
}

/// A new revision of an object's properties keeps the type that the
/// object was declared with, in its revision or in one it depends on, and
/// takes the new properties without file data.
pub proof fn law_object_revision_keeps_type(
    rv: ObjectRevision,
    table: Map<u32, Guid>,
    env: RevisionEnv,
    objects: Map<ExGuid, ObjectModel>,
)
    requires
        apply_revision_spec(rv, table, env, objects) is Ok,
    ensures
        ({
            let m = apply_revision_spec(rv, table, env, objects)->Ok_0;
            let id = ExGuid { guid: table[rv.oid.guid_index], value: rv.oid.n as u32 };
            let declared = if objects.contains_key(id) {
                objects[id]
            } else {
                find_dependency_spec(env.revisions, env.parent_id, id)->0
            };
            &&& table.contains_key(rv.oid.guid_index)
            &&& m.contains_key(id)
            &&& m[id].jc_id == declared.jc_id
            &&& m[id].props == rv.property_set@
            &&& m[id].file_data is None
            &&& forall|other: ExGuid| other != id ==> #[trigger] m.get(other) == objects.get(other)
        }),
{
}

} // verus!
