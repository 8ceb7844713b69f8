use crate::errors::{Error, ErrorKind, Result};
use crate::exguid::{nil_exguid, ExGuid};
use crate::exguid_map::{entries_view, position_of, ExGuidMap};
use crate::file_node::{FileNodeData, FileNodeDataIterator};
use crate::guid::Guid;
use crate::onestore::{extend_roots, no_roots, FileBlobModel, ObjectModel, RootRole, Roots};
use crate::parse_context::ParseContext;
use crate::revision::{
    lemma_models_position, lemma_revision_end, revision_entry_ok, revision_models,
    revision_spec, revision_start_of, revisions_ordered, try_parse, Revision, RevisionModel,
};
use vstd::prelude::*;

verus! {

/// The revision role of the active content.
pub const ACTIVE_CONTENT_ROLE: u32 = 0x1;

/// The key of a revision label: a revision context and a revision role.
pub type LabelKey = (Option<ExGuid>, u32);

/// The revision that the label log `log` gives to `key`: the one of its
/// last entry for that key.
pub open spec fn label_lookup(log: Seq<(LabelKey, ExGuid)>, key: LabelKey) -> Option<ExGuid>
    decreases log.len(),
{
    if log.len() == 0 {
        None
    } else if log.last().0 == key {
        Some(log.last().1)
    } else {
        label_lookup(log.drop_last(), key)
    }
}

/// The revisions that (context, role) pairs label; a later label for a
/// pair replaces an earlier one.
pub struct RevisionLabels {
    log: Vec<(LabelKey, ExGuid)>,
}

impl View for RevisionLabels {
    type V = Map<LabelKey, ExGuid>;

    closed spec fn view(&self) -> Map<LabelKey, ExGuid> {
        Map::new(
            |k: LabelKey| label_lookup(self.log@, k) is Some,
            |k: LabelKey| label_lookup(self.log@, k)->0,
        )
    }
}

/// Whether two label keys are the same.
fn same_key(a: &LabelKey, b: &LabelKey) -> (r: bool)
    ensures
        r == (*a == *b),
{
    let same_context = match (&a.0, &b.0) {
        (None, None) => true,
        (Some(x), Some(y)) => *x == *y,
        _ => false,
    };
    same_context && a.1 == b.1
}

impl RevisionLabels {
    /// No labels.
    pub fn new() -> (l: RevisionLabels)
        ensures
            l@ == Map::<LabelKey, ExGuid>::empty(),
    {
        let l = RevisionLabels { log: Vec::new() };
        assert(l@ =~= Map::<LabelKey, ExGuid>::empty());
        l
    }

    /// Labels `revision_id` with `key`, replacing any earlier label.
    pub fn insert(&mut self, key: LabelKey, revision_id: ExGuid)
        ensures
            final(self)@ == old(self)@.insert(key, revision_id),
    {
        let ghost old_log = self.log@;
        let ghost old_view = self@;
        self.log.push((key, revision_id));
        proof {
            assert(self.log@.drop_last() =~= old_log);
            assert(self@ =~= old_view.insert(key, revision_id));
        }
    }

    /// The revision labelled with `key`, if any.
    pub fn get(&self, key: &LabelKey) -> (r: Option<ExGuid>)
        ensures
            r == self@.get(*key),
    {
        let mut i = self.log.len();
        proof {
            assert(self.log@.take(i as int) =~= self.log@);
        }
        while i > 0
            invariant
                i <= self.log@.len(),
                label_lookup(self.log@, *key) == label_lookup(self.log@.take(i as int), *key),
            decreases i,
        {
            proof {
                assert(self.log@.take(i as int).drop_last() =~= self.log@.take(i - 1));
            }
            if same_key(&self.log[i - 1].0, key) {
                return Some(self.log[i - 1].1);
            }
            i = i - 1;
        }
        None
    }
}

/// Labels `revision_id` with the pair (`context`, `role`), which must name
/// a revision already read.
///
/// A later label for the same context and role supersedes the earlier one.
pub fn associate_label(
    revisions: &ExGuidMap<Revision>,
    labels: &mut RevisionLabels,
    revision_id: ExGuid,
    context: Option<ExGuid>,
    role: u32,
) -> (r: Result<()>)
    requires
        revisions.wf(),
    ensures
        revisions@.contains_key(revision_id) ==> r is Ok && final(labels)@ == old(labels)@.insert(
            (context, role),
            revision_id,
        ),
        !revisions@.contains_key(revision_id) ==> r == Err::<(), Error>(
            Error { kind: ErrorKind::UndeclaredLabelTarget },
        ) && final(labels)@ == old(labels)@,
{
    if !revisions.contains_key(&revision_id) {
        return Err(Error::new(ErrorKind::UndeclaredLabelTarget));
    }
    labels.insert((context, role), revision_id);
    Ok(())
}

/// The roots and objects of the revision at position `p` of `s`: those of
/// the revisions it depends on, oldest first, each revision's own roots and
/// objects replacing those before them.
pub open spec fn materialize_at(s: Seq<(ExGuid, RevisionModel)>, p: int) -> Result<
    (Roots, Map<ExGuid, ObjectModel>),
>
    decreases p,
{
    if !(0 <= p < s.len()) {
        Err(Error { kind: ErrorKind::UndeclaredRevisionInChain })
    } else {
        let rev = s[p].1;
        let base = if rev.parent_id == nil_exguid() {
            Ok((no_roots(), Map::empty()))
        } else {
            match position_of(s, rev.parent_id) {
                Some(q) => if 0 <= q < p {
                    materialize_at(s, q)
                } else {
                    Err(Error { kind: ErrorKind::UndeclaredRevisionInChain })
                },
                None => Err(Error { kind: ErrorKind::UndeclaredRevisionInChain }),
            }
        };
        match base {
            Err(e) => Err(e),
            Ok((roots, objects)) => Ok(
                (extend_roots(roots, rev.roots), objects.union_prefer_right(rev.objects)),
            ),
        }
    }
}

/// The roots and objects of the revision `active_id` of `s`, built from its
/// dependency chain only.
pub open spec fn materialize_spec(s: Seq<(ExGuid, RevisionModel)>, active_id: ExGuid) -> Result<
    (Roots, Map<ExGuid, ObjectModel>),
> {
    if active_id == nil_exguid() {
        Ok((no_roots(), Map::empty()))
    } else {
        match position_of(s, active_id) {
            None => Err(Error { kind: ErrorKind::UndeclaredRevisionInChain }),
            Some(p) => materialize_at(s, p),
        }
    }
}

/// Adds every object of `other` to `objects`, replacing objects with the
/// same ID.
fn extend_objects(
    objects: &mut ExGuidMap<crate::onestore::Object>,
    other: &ExGuidMap<crate::onestore::Object>,
)
    requires
        old(objects).wf(),
    ensures
        final(objects).wf(),
        final(objects)@ == old(objects)@.union_prefer_right(other@),
{
    let ghost before = objects@;
    let ghost es = other.entries();
    let mut i: usize = 0;
    proof {
        assert(es.take(0) =~= Seq::<(ExGuid, crate::onestore::Object)>::empty());
        assert(before.union_prefer_right(entries_view(es.take(0))) =~= before);
    }
    while i < other.len()
        invariant
            es == other.entries(),
            i <= es.len(),
            objects.wf(),
            objects@ == before.union_prefer_right(entries_view(es.take(i as int))),
        decreases es.len() - i,
    {
        let (key, value) = other.entry_at(i);
        objects.insert(*key, value.duplicate());
        proof {
            assert(es.take(i + 1).drop_last() =~= es.take(i as int));
            assert(before.union_prefer_right(entries_view(es.take(i + 1))) =~= before.union_prefer_right(
                entries_view(es.take(i as int)),
            ).insert(es[i as int].0, es[i as int].1@));
        }
        i = i + 1;
    }
    proof {
        assert(es.take(i as int) =~= es);
        other.lemma_view_entries();
    }
}

/// Replaces `roots` and `objects` by those of the revision `active_id`,
/// built from its dependency chain.
pub fn materialize_revision(
    active_id: ExGuid,
    revisions: &ExGuidMap<Revision>,
    roots: &mut Roots,
    objects: &mut ExGuidMap<crate::onestore::Object>,
) -> (r: Result<()>)
    requires
        revisions_ordered(revisions),
        old(objects).wf(),
    ensures
        final(objects).wf(),
        match materialize_spec(revision_models(revisions), active_id) {
            Ok((rs, os)) => r is Ok && *final(roots) == rs && final(objects)@ == os,
            Err(e) => r == Err::<(), Error>(e) && *final(roots) == *old(roots) && final(objects)@
                == old(objects)@,
        },
{
    let ghost s = revisions.entries();
    let ghost ms = revision_models(revisions);
    proof {
        lemma_models_position(s, active_id);
        revisions.lemma_view(active_id);
    }
    let mut chain: Vec<&Revision> = Vec::new();
    let ghost mut positions: Seq<int> = Seq::empty();
    let mut revision_id = active_id;
    let ghost mut bound: int = s.len() as int;
    while !revision_id.is_nil()
        invariant
            *roots == *old(roots),
            *objects == *old(objects),
            objects.wf(),
            s == revisions.entries(),
            ms == revision_models(revisions),
            ms.len() == s.len(),
            revisions_ordered(revisions),
            0 <= bound <= s.len(),
            chain@.len() == positions.len(),
            forall|k: int|
                0 <= k < positions.len() ==> 0 <= #[trigger] positions[k] < s.len() && chain@[k]
                    == s[positions[k]].1,
            forall|k: int|
                0 <= k < positions.len() - 1 ==> positions[k + 1] < positions[k]
                    && #[trigger] s[positions[k]].1.parent_id != nil_exguid() && position_of(
                    s,
                    s[positions[k]].1.parent_id,
                ) == Some(positions[k + 1]),
            positions.len() == 0 ==> revision_id == active_id && bound == s.len(),
            positions.len() > 0 ==> active_id != nil_exguid(),
            positions.len() > 0 ==> revision_id == s[positions.last()].1.parent_id && bound
                == positions.last(),
            active_id != nil_exguid() && positions.len() > 0 ==> position_of(s, active_id) == Some(
                positions[0],
            ),
            revision_id != nil_exguid() && positions.len() > 0 ==> position_of(s, revision_id) is Some,
            revision_id != nil_exguid() ==> (position_of(s, revision_id) matches Some(p) ==> p < bound),
        decreases bound,
    {
        proof {
            revisions.lemma_view(revision_id);
            lemma_models_position(s, revision_id);
        }
        let revision = match revisions.get(&revision_id) {
            Some(rev) => rev,
            None => {
                return Err(Error::new(ErrorKind::UndeclaredRevisionInChain));
            },
        };
        let ghost p = position_of(s, revision_id)->0;
        chain.push(revision);
        proof {
            assert(revision_entry_ok(s, p));
            let parent = s[p].1.parent_id;
            if parent != nil_exguid() {
                let q = choose|q: int| 0 <= q < p && #[trigger] s[q].0 == parent;
                assert(position_of(s, s[q].0) == Some(q));
            }
            positions = positions.push(p);
            bound = p;
        }
        revision_id = revision.parent_id;
    }
    proof {
        if active_id != nil_exguid() {
            assert(positions.len() > 0);
        }
    }
    *roots = Roots::new();
    objects.clear();
    let mut j = chain.len();
    proof {
        assert(no_roots() == *roots);
        assert(objects@ =~= Map::<ExGuid, ObjectModel>::empty());
    }
    while j > 0
        invariant
            s == revisions.entries(),
            ms == revision_models(revisions),
            ms.len() == s.len(),
            revisions_ordered(revisions),
            chain@.len() == positions.len(),
            j <= chain@.len(),
            objects.wf(),
            forall|k: int|
                0 <= k < positions.len() ==> 0 <= #[trigger] positions[k] < s.len() && chain@[k]
                    == s[positions[k]].1,
            forall|k: int|
                0 <= k < positions.len() - 1 ==> positions[k + 1] < positions[k]
                    && #[trigger] s[positions[k]].1.parent_id != nil_exguid() && position_of(
                    s,
                    s[positions[k]].1.parent_id,
                ) == Some(positions[k + 1]),
            positions.len() > 0 ==> s[positions.last()].1.parent_id == nil_exguid(),
            positions.len() > 0 <==> active_id != nil_exguid(),
            active_id != nil_exguid() ==> position_of(s, active_id) == Some(positions[0]),
            j == positions.len() ==> *roots == no_roots() && objects@ == Map::<
                ExGuid,
                ObjectModel,
            >::empty(),
            j < positions.len() ==> materialize_at(ms, positions[j as int]) == Ok::<
                (Roots, Map<ExGuid, ObjectModel>),
                Error,
            >((*roots, objects@)),
        decreases j,
    {
        let revision = chain[j - 1];
        roots.extend(&revision.roots);
        extend_objects(objects, &revision.objects);
        proof {
            let p = positions[j - 1];
            lemma_models_position(s, s[p].1.parent_id);
            assert(ms[p] == (s[p].0, s[p].1@));
        }
        j = j - 1;
    }
    proof {
        if active_id != nil_exguid() {
            assert(position_of(ms, active_id) == Some(positions[0]));
            assert(materialize_at(ms, positions[0]) == Ok::<(Roots, Map<ExGuid, ObjectModel>), Error>((*roots, objects@)));
        } else {
            assert(positions.len() == 0);
        }
    }
    Ok(())
}

/// The revisions and labels that a revision manifest list has gathered.
pub struct ManifestState {
    pub revisions: Seq<(ExGuid, RevisionModel)>,
    pub labels: Map<LabelKey, ExGuid>,
}

/// What the entries of a revision manifest list, from node `i` up to its
/// end node (which stays unread), make of the state `ms`, with the position
/// reached.
///
/// See [MS-ONESTORE] 2.1.8 and 2.5.17 to 2.5.18.
#[verifier::opaque]
pub open spec fn manifest_body_spec(
    nodes: Seq<FileNodeData>,
    i: int,
    context_id: ExGuid,
    store: Option<Seq<(Guid, FileBlobModel)>>,
    ms: ManifestState,
) -> Result<(ManifestState, int)>
    decreases nodes.len() - i,
{
    if !(0 <= i < nodes.len()) {
        Ok((ms, i))
    } else {
        match nodes[i] {
            FileNodeData::RevisionManifestEndFND => Ok((ms, i)),
            FileNodeData::RevisionRoleDeclarationFND { rid, revision_role } => if position_of(
                ms.revisions,
                rid,
            ) is None {
                Err(Error { kind: ErrorKind::UndeclaredLabelTarget })
            } else {
                manifest_body_spec(
                    nodes,
                    i + 1,
                    context_id,
                    store,
                    ManifestState { labels: ms.labels.insert((None, revision_role), rid), ..ms },
                )
            },
            FileNodeData::RevisionRoleAndContextDeclarationFND { rid, revision_role, gctxid } =>
                if position_of(ms.revisions, rid) is None {
                Err(Error { kind: ErrorKind::UndeclaredLabelTarget })
            } else {
                manifest_body_spec(
                    nodes,
                    i + 1,
                    context_id,
                    store,
                    ManifestState {
                        labels: ms.labels.insert((Some(gctxid), revision_role), rid),
                        ..ms
                    },
                )
            },
            n => if revision_start_of(n) is None {
                Err(Error { kind: ErrorKind::UnexpectedRevisionManifestListNode })
            } else {
                match revision_spec(nodes, i, context_id, store, ms.revisions) {
                    Err(e) => Err(e),
                    Ok((rev, j)) => if position_of(ms.revisions, rev.id) is Some {
                        Err(Error { kind: ErrorKind::DuplicateRevision })
                    } else {
                        proof {
                            lemma_revision_end(nodes, i, context_id, store, ms.revisions);
                        }
                        manifest_body_spec(
                            nodes,
                            j,
                            context_id,
                            store,
                            ManifestState {
                                revisions: ms.revisions.push((rev.id, rev)),
                                labels: ms.labels.insert((rev.context, rev.role), rev.id),
                            },
                        )
                    },
                }
            },
        }
    }
}

/// The roots and objects that a revision manifest list, from node `i`,
/// gives its object space, with the position of its end node: those of
/// the revision labelled as the active content of the default context.
pub open spec fn manifest_list_spec(
    nodes: Seq<FileNodeData>,
    i: int,
    context_id: ExGuid,
    store: Option<Seq<(Guid, FileBlobModel)>>,
) -> Result<(Roots, Map<ExGuid, ObjectModel>, int)> {
    match manifest_body_spec(
        nodes,
        i,
        context_id,
        store,
        ManifestState { revisions: Seq::empty(), labels: Map::empty() },
    ) {
        Err(e) => Err(e),
        Ok((ms, end)) => match ms.labels.get((None, ACTIVE_CONTENT_ROLE)) {
            None => Err(Error { kind: ErrorKind::NoActiveRevision }),
            Some(active) => match materialize_spec(ms.revisions, active) {
                Err(e) => Err(e),
                Ok((roots, objects)) => Ok((roots, objects, end)),
            },
        },
    }
}

/// The state that the revisions read so far and the labels describe.
pub open spec fn manifest_state(revisions: &ExGuidMap<Revision>, labels: &RevisionLabels) -> ManifestState {
    ManifestState { revisions: revision_models(revisions), labels: labels@ }
}

/// Appending a revision whose dependency was read keeps the revisions in
/// order.
proof fn lemma_ordered_push(
    old_revisions: &ExGuidMap<Revision>,
    new_revisions: &ExGuidMap<Revision>,
    id: ExGuid,
    rev: Revision,
)
    requires
        revisions_ordered(old_revisions),
        new_revisions.wf(),
        new_revisions.entries() == old_revisions.entries().push((id, rev)),
        rev.objects.wf(),
        rev.parent_id == nil_exguid() || position_of(old_revisions.entries(), rev.parent_id) is Some,
    ensures
        revisions_ordered(new_revisions),
        revision_models(new_revisions) == revision_models(old_revisions).push((id, rev@)),
{
    let s = old_revisions.entries();
    let t = new_revisions.entries();
    assert forall|p: int| 0 <= p < t.len() implies #[trigger] revision_entry_ok(t, p) by {
        if p < s.len() {
            assert(revision_entry_ok(s, p));
            assert(t[p] == s[p]);
            if s[p].1.parent_id != nil_exguid() {
                let q = choose|q: int| 0 <= q < p && #[trigger] s[q].0 == s[p].1.parent_id;
                assert(t[q] == s[q]);
            }
        } else {
            if rev.parent_id != nil_exguid() {
                old_revisions.lemma_view(rev.parent_id);
                let q = position_of(s, rev.parent_id)->0;
                assert(t[q] == s[q]);
            }
        }
    }
    assert(revision_models(new_revisions) =~= revision_models(old_revisions).push((id, rev@)));
}

/// The revisions of an object space, with the labels that say which of
/// them holds the current content.
///
/// See [MS-ONESTORE] 2.1.8.
pub struct RevisionManifestList {}

impl RevisionManifestList {
    /// Reads a revision manifest list if one starts under the cursor,
    /// replacing `roots` and `objects` by those of its active revision;
    /// leaves everything as it is otherwise.
    pub fn try_parse_into(
        iterator: &mut FileNodeDataIterator,
        context: &ParseContext,
        roots: &mut Roots,
        objects: &mut ExGuidMap<crate::onestore::Object>,
    ) -> (r: Result<Option<()>>)
        requires
            old(iterator).wf(),
            old(objects).wf(),
        ensures
            final(iterator).wf(),
            final(iterator).nodes() == old(iterator).nodes(),
            final(objects).wf(),
            match old(iterator).spec_peek() {
                Some(FileNodeData::RevisionManifestListStartFND { .. }) => match manifest_list_spec(
                    old(iterator).nodes(),
                    old(iterator).index() + 1,
                    context.context_id,
                    context.store_view(),
                ) {
                    Ok((rs, os, end)) => r == Ok::<Option<()>, Error>(Some(())) && *final(roots)
                        == rs && final(objects)@ == os && final(iterator).index() == end,
                    Err(e) => r == Err::<Option<()>, Error>(e),
                },
                _ => r == Ok::<Option<()>, Error>(None) && final(iterator).index() == old(iterator).index() && *final(roots) == *old(roots) && final(objects)@ == old(objects)@,
            },
    {
        if let Some(FileNodeData::RevisionManifestListStartFND { .. }) = iterator.peek() {
            iterator.next();
            RevisionManifestList::parse_into(iterator, context, roots, objects)?;
            Ok(Some(()))
        } else {
            Ok(None)
        }
    }

    /// Reads the entries of a revision manifest list under the cursor.
    fn parse_into(
        iterator: &mut FileNodeDataIterator,
        context: &ParseContext,
        roots: &mut Roots,
        objects: &mut ExGuidMap<crate::onestore::Object>,
    ) -> (r: Result<()>)
        requires
            old(iterator).wf(),
            old(objects).wf(),
        ensures
            final(iterator).wf(),
            final(iterator).nodes() == old(iterator).nodes(),
            final(objects).wf(),
            match manifest_list_spec(
                old(iterator).nodes(),
                old(iterator).index(),
                context.context_id,
                context.store_view(),
            ) {
                Ok((rs, os, end)) => r is Ok && *final(roots) == rs && final(objects)@ == os && final(iterator).index() == end,
                Err(e) => r == Err::<(), Error>(e),
            },
    {
        let ghost nodes = iterator.nodes();
        let ghost i0 = iterator.index();
        let mut revisions: ExGuidMap<Revision> = ExGuidMap::new();
        let mut labels = RevisionLabels::new();
        proof {
            assert(revision_models(&revisions) =~= Seq::<(ExGuid, RevisionModel)>::empty());
        }
        let ghost ms0 = manifest_state(&revisions, &labels);
        loop
            invariant_except_break
                iterator.wf(),
                iterator.nodes() == nodes,
                nodes == old(iterator).nodes(),
                i0 == old(iterator).index(),
                ms0 == (ManifestState { revisions: Seq::empty(), labels: Map::empty() }),
                objects.wf(),
                revisions_ordered(&revisions),
                manifest_body_spec(nodes, i0, context.context_id, context.store_view(), ms0)
                    == manifest_body_spec(
                    nodes,
                    iterator.index(),
                    context.context_id,
                    context.store_view(),
                    manifest_state(&revisions, &labels),
                ),
            ensures
                iterator.wf(),
                iterator.nodes() == nodes,
                nodes == old(iterator).nodes(),
                i0 == old(iterator).index(),
                ms0 == (ManifestState { revisions: Seq::empty(), labels: Map::empty() }),
                objects.wf(),
                revisions_ordered(&revisions),
                manifest_body_spec(nodes, i0, context.context_id, context.store_view(), ms0) == Ok::<
                    (ManifestState, int),
                    Error,
                >((manifest_state(&revisions, &labels), iterator.index())),
            decreases nodes.len() - iterator.index(),
        {
            let done = RevisionManifestList::step(iterator, context, &mut revisions, &mut labels)?;
            if done {
                break;
            }
        }
        let active_id = match labels.get(&(None, ACTIVE_CONTENT_ROLE)) {
            Some(id) => id,
            None => {
                return Err(Error::new(ErrorKind::NoActiveRevision));
            },
        };
        materialize_revision(active_id, &revisions, roots, objects)
    }

    /// Reads the next entry of a revision manifest list; `true` at its end.
    fn step(
        iterator: &mut FileNodeDataIterator,
        context: &ParseContext,
        revisions: &mut ExGuidMap<Revision>,
        labels: &mut RevisionLabels,
    ) -> (r: Result<bool>)
        requires
            old(iterator).wf(),
            revisions_ordered(old(revisions)),
        ensures
            final(iterator).wf(),
            final(iterator).nodes() == old(iterator).nodes(),
            revisions_ordered(final(revisions)),
            match r {
                Ok(true) => manifest_body_spec(
                    old(iterator).nodes(),
                    old(iterator).index(),
                    context.context_id,
                    context.store_view(),
                    manifest_state(old(revisions), old(labels)),
                ) == Ok::<(ManifestState, int), Error>(
                    (manifest_state(final(revisions), final(labels)), final(iterator).index()),
                ),
                Ok(false) => final(iterator).index() > old(iterator).index() && manifest_body_spec(
                    old(iterator).nodes(),
                    old(iterator).index(),
                    context.context_id,
                    context.store_view(),
                    manifest_state(old(revisions), old(labels)),
                ) == manifest_body_spec(
                    final(iterator).nodes(),
                    final(iterator).index(),
                    context.context_id,
                    context.store_view(),
                    manifest_state(final(revisions), final(labels)),
                ),
                Err(e) => manifest_body_spec(
                    old(iterator).nodes(),
                    old(iterator).index(),
                    context.context_id,
                    context.store_view(),
                    manifest_state(old(revisions), old(labels)),
                ) == Err::<(ManifestState, int), Error>(e),
            },
    {
        let ghost nodes = iterator.nodes();
        let ghost at = iterator.index();
        proof {
            reveal(manifest_body_spec);
        }
        let current = match iterator.peek() {
            Some(n) => n,
            None => {
                return Ok(true);
            },
        };
        match current {
            FileNodeData::RevisionManifestEndFND => Ok(true),
            FileNodeData::RevisionRoleDeclarationFND { rid, revision_role } => {
                proof {
                    revisions.lemma_view(*rid);
                    lemma_models_position(revisions.entries(), *rid);
                }
                associate_label(revisions, labels, *rid, None, *revision_role)?;
                iterator.next();
                Ok(false)
            },
            FileNodeData::RevisionRoleAndContextDeclarationFND { rid, revision_role, gctxid } => {
                proof {
                    revisions.lemma_view(*rid);
                    lemma_models_position(revisions.entries(), *rid);
                }
                associate_label(revisions, labels, *rid, Some(*gctxid), *revision_role)?;
                iterator.next();
                Ok(false)
            },
            _ => {
                let parsed = match try_parse(iterator, context, revisions)? {
                    Some(rev) => rev,
                    None => {
                        return Err(Error::new(ErrorKind::UnexpectedRevisionManifestListNode));
                    },
                };
                let id = parsed.id;
                proof {
                    revisions.lemma_view(id);
                    lemma_models_position(revisions.entries(), id);
                    lemma_revision_end(
                        nodes,
                        at,
                        context.context_id,
                        context.store_view(),
                        revision_models(revisions),
                    );
                    revisions.lemma_view(parsed.parent_id);
                    lemma_models_position(revisions.entries(), parsed.parent_id);
                }
                if revisions.contains_key(&id) {
                    return Err(Error::new(ErrorKind::DuplicateRevision));
                }
                labels.insert((parsed.context, parsed.role), id);
                let ghost before = *revisions;
                let ghost rev = parsed;
                revisions.insert(id, parsed);
                proof {
                    lemma_ordered_push(&before, revisions, id, rev);
                }
                Ok(false)
            },
        }
    }
}

/// Of two role declarations for the same context and role, the later one
/// decides which revision the label names.
pub proof fn law_later_label_replaces_earlier(
    labels: Map<LabelKey, ExGuid>,
    key: LabelKey,
    earlier: ExGuid,
    later: ExGuid,
)
    ensures
        labels.insert(key, earlier).insert(key, later).get(key) == Some(later),
{
}

/// Appending a revision to `s` changes the position of no key of `s`.
proof fn lemma_position_push(s: Seq<(ExGuid, RevisionModel)>, x: (ExGuid, RevisionModel), k: ExGuid)
    ensures
        position_of(s.push(x), k) == (if k == x.0 {
            Some(s.len() as int)
        } else {
            position_of(s, k)
        }),
{
    assert(s.push(x).drop_last() =~= s);
}

/// The revision at position `p` materializes the same way once a revision
/// that is not yet read is appended.
proof fn lemma_materialize_at_push(s: Seq<(ExGuid, RevisionModel)>, x: (ExGuid, RevisionModel), p: int)
    requires
        position_of(s, x.0) is None,
        0 <= p < s.len(),
    ensures
        materialize_at(s.push(x), p) == materialize_at(s, p),
    decreases p,
{
    let t = s.push(x);
    assert(t[p] == s[p]);
    let parent = s[p].1.parent_id;
    lemma_position_push(s, x, parent);
    if parent != nil_exguid() {
        match position_of(s, parent) {
            Some(q) => {
                if 0 <= q < p {
                    lemma_materialize_at_push(s, x, q);
                }
            },
            None => {},
        }
    }
}

/// The roots and objects of a revision depend on its dependency chain only:
/// appending another revision to the revisions read so far leaves them as
/// they were.
pub proof fn law_materialize_ignores_other_revisions(
    s: Seq<(ExGuid, RevisionModel)>,
    x: (ExGuid, RevisionModel),
    active_id: ExGuid,
)
    requires
        position_of(s, x.0) is None,
        active_id == nil_exguid() || position_of(s, active_id) is Some,
    ensures
        materialize_spec(s.push(x), active_id) == materialize_spec(s, active_id),
{
    lemma_position_push(s, x, active_id);
    if active_id != nil_exguid() {
        let p = position_of(s, active_id)->0;
        lemma_position_bound(s, active_id);
        lemma_materialize_at_push(s, x, p);
    }
}

/// A position found lies within the sequence.
proof fn lemma_position_bound(s: Seq<(ExGuid, RevisionModel)>, k: ExGuid)
    ensures
        position_of(s, k) matches Some(p) ==> 0 <= p < s.len(),
    decreases s.len(),
{
    if s.len() > 0 {
        lemma_position_bound(s.drop_last(), k);
    }
}

/// The revision at position `q` is on the dependency chain of the one at
/// position `p`: it is that revision or one it depends on, directly or not.
pub open spec fn on_chain(s: Seq<(ExGuid, RevisionModel)>, p: int, q: int) -> bool
    decreases p,
{
    if !(0 <= p < s.len()) {
        false
    } else if p == q {
        true
    } else {
        let parent = s[p].1.parent_id;
        parent != nil_exguid() && match position_of(s, parent) {
            Some(r) => 0 <= r < p && on_chain(s, r, q),
            None => false,
        }
    }
}

/// Every root and object that a revision materializes comes from a
/// revision on its dependency chain.
pub proof fn law_materialize_uses_only_the_chain(s: Seq<(ExGuid, RevisionModel)>, p: int)
    requires
        materialize_at(s, p) is Ok,
    ensures
        ({
            let (roots, objects) = materialize_at(s, p)->Ok_0;
            &&& forall|role: RootRole|
                #[trigger] roots.spec_get(role) is Some ==> exists|q: int|
                    on_chain(s, p, q) && s[q].1.roots.spec_get(role) == roots.spec_get(role)
            &&& forall|id: ExGuid|
                #[trigger] objects.contains_key(id) ==> exists|q: int|
                    on_chain(s, p, q) && s[q].1.objects.contains_key(id) && s[q].1.objects[id]
                        == objects[id]
        }),
    decreases p,
{
    let rev = s[p].1;
    let (roots, objects) = materialize_at(s, p)->Ok_0;
    assert(on_chain(s, p, p));
    if rev.parent_id == nil_exguid() {
        assert forall|role: RootRole| #[trigger] roots.spec_get(role) is Some implies exists|q: int|
            on_chain(s, p, q) && s[q].1.roots.spec_get(role) == roots.spec_get(role) by {
            assert(s[p].1.roots.spec_get(role) == roots.spec_get(role));
        }
        assert forall|id: ExGuid| #[trigger] objects.contains_key(id) implies exists|q: int|
            on_chain(s, p, q) && s[q].1.objects.contains_key(id) && s[q].1.objects[id] == objects[id] by {
            assert(s[p].1.objects.contains_key(id));
        }
    } else {
        let r = position_of(s, rev.parent_id)->0;
        law_materialize_uses_only_the_chain(s, r);
        let (base_roots, base_objects) = materialize_at(s, r)->Ok_0;
        assert forall|q: int| on_chain(s, r, q) implies on_chain(s, p, q) by {
            if q != p {
            }
        }
        assert forall|role: RootRole| #[trigger] roots.spec_get(role) is Some implies exists|q: int|
            on_chain(s, p, q) && s[q].1.roots.spec_get(role) == roots.spec_get(role) by {
            if rev.roots.spec_get(role) is Some {
                assert(s[p].1.roots.spec_get(role) == roots.spec_get(role));
            } else {
                assert(base_roots.spec_get(role) is Some);
                let q = choose|q: int|
                    on_chain(s, r, q) && s[q].1.roots.spec_get(role) == base_roots.spec_get(role);
                assert(on_chain(s, p, q));
            }
        }
        assert forall|id: ExGuid| #[trigger] objects.contains_key(id) implies exists|q: int|
            on_chain(s, p, q) && s[q].1.objects.contains_key(id) && s[q].1.objects[id] == objects[id] by {
            if rev.objects.contains_key(id) {
                assert(s[p].1.objects.contains_key(id));
            } else {
                assert(base_objects.contains_key(id));
                let q = choose|q: int|
                    on_chain(s, r, q) && s[q].1.objects.contains_key(id) && s[q].1.objects[id]
                        == base_objects[id];
                assert(on_chain(s, p, q));
            }
        }
    }
}

/// The active revision's own content wins: every object that the
/// revision at position `p` declares is materialized with the value that
/// revision gives it, and so is every root it sets, whatever the revisions
/// it depends on hold.
pub proof fn law_active_revision_content_wins(s: Seq<(ExGuid, RevisionModel)>, p: int)
    requires
        materialize_at(s, p) is Ok,
    ensures
        ({
            let (roots, objects) = materialize_at(s, p)->Ok_0;
            &&& forall|id: ExGuid|
                #[trigger] s[p].1.objects.contains_key(id) ==> objects.contains_key(id)
                    && objects[id] == s[p].1.objects[id]
            &&& forall|role: RootRole|
                #[trigger] s[p].1.roots.spec_get(role) is Some ==> roots.spec_get(role)
                    == s[p].1.roots.spec_get(role)
        }),
{
    let (roots, objects) = materialize_at(s, p)->Ok_0;
    assert forall|role: RootRole| #[trigger] s[p].1.roots.spec_get(role) is Some implies roots.spec_get(
        role,
    ) == s[p].1.roots.spec_get(role) by {
        match role {
            RootRole::DefaultContent => {},
            RootRole::MetadataRoot => {},
            RootRole::VersionMetadataRoot => {},
        }
    }
}

proof fn lemma_chain_goes_back(s: Seq<(ExGuid, RevisionModel)>, p: int, q: int)
    requires
        on_chain(s, p, q),
    ensures
        0 <= q <= p < s.len(),
    decreases p,
{
    if p != q {
        let r = position_of(s, s[p].1.parent_id)->0;
        lemma_chain_goes_back(s, r, q);
    }
}

/// Newer revisions replace older ones: an object (or root) that a
/// revision `q` on the dependency chain of `p` declares, and that no newer
/// revision of that chain declares, is materialized for `p` with the value
/// `q` gives it.
pub proof fn law_newest_declaration_wins(s: Seq<(ExGuid, RevisionModel)>, p: int, q: int)
    requires
        materialize_at(s, p) is Ok,
        on_chain(s, p, q),
    ensures
        ({
            let (roots, objects) = materialize_at(s, p)->Ok_0;
            &&& forall|id: ExGuid|
                #[trigger] s[q].1.objects.contains_key(id) && (forall|n: int|
                    on_chain(s, p, n) && on_chain(s, n, q) && n != q ==> !(
                    #[trigger] s[n].1.objects).contains_key(id)) ==> objects.contains_key(id)
                    && objects[id] == s[q].1.objects[id]
            &&& forall|role: RootRole|
                #[trigger] s[q].1.roots.spec_get(role) is Some && (forall|n: int|
                    on_chain(s, p, n) && on_chain(s, n, q) && n != q ==> (
                    #[trigger] s[n].1.roots).spec_get(role) is None) ==> roots.spec_get(role)
                    == s[q].1.roots.spec_get(role)
        }),
    decreases p,
{
    let (roots, objects) = materialize_at(s, p)->Ok_0;
    lemma_chain_goes_back(s, p, q);
    if p == q {
        law_active_revision_content_wins(s, p);
    } else {
        let rev = s[p].1;
        let r = position_of(s, rev.parent_id)->0;
        assert(on_chain(s, r, q));
        law_newest_declaration_wins(s, r, q);
        assert(on_chain(s, p, p));
        assert forall|n: int| on_chain(s, r, n) implies #[trigger] on_chain(s, p, n) by {
            lemma_chain_goes_back(s, r, n);
        }
        let (base_roots, base_objects) = materialize_at(s, r)->Ok_0;
        assert forall|id: ExGuid|
            #[trigger] s[q].1.objects.contains_key(id) && (forall|n: int|
                on_chain(s, p, n) && on_chain(s, n, q) && n != q ==> !(
                #[trigger] s[n].1.objects).contains_key(id)) implies objects.contains_key(id)
            && objects[id] == s[q].1.objects[id] by {
            assert(!s[p].1.objects.contains_key(id));
            assert(base_objects.contains_key(id) && base_objects[id] == s[q].1.objects[id]);
        }
        assert forall|role: RootRole|
            #[trigger] s[q].1.roots.spec_get(role) is Some && (forall|n: int|
                on_chain(s, p, n) && on_chain(s, n, q) && n != q ==> (
                #[trigger] s[n].1.roots).spec_get(role) is None) implies roots.spec_get(role)
            == s[q].1.roots.spec_get(role) by {
            assert(s[p].1.roots.spec_get(role) is None);
            assert(base_roots.spec_get(role) == s[q].1.roots.spec_get(role));
            match role {
                RootRole::DefaultContent => {},
                RootRole::MetadataRoot => {},
                RootRole::VersionMetadataRoot => {},
            }
        }
    }
}

} // verus!
