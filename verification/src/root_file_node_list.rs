use crate::errors::{Error, ErrorKind, Result};
use crate::exguid::{nil_exguid, ExGuid};
use crate::exguid_map::ExGuidMap;
use crate::file_node::{FileNodeData, FileNodeDataIterator, FileNodeList};
use crate::guid::Guid;
use crate::onestore::{FileBlobModel, ObjectModel, ObjectSpace, ObjectSpaceModel, Roots};
use crate::parse_context::{file_list_spec, FileDataStore, ParseContext};
use crate::revision_manifest_list::{manifest_list_spec, RevisionManifestList};
use vstd::prelude::*;

verus! {

/// The roots and objects of the object space `gosid` whose last revision
/// manifest list is `list`, given the files of the file data store.
pub open spec fn object_space_spec(
    gosid: ExGuid,
    list: Seq<FileNodeData>,
    store: Option<Seq<(Guid, FileBlobModel)>>,
) -> Result<ObjectSpaceModel> {
    if !(0 < list.len() && list[0] is RevisionManifestListStartFND) {
        Err(Error { kind: ErrorKind::MissingRevisionManifestList })
    } else {
        match manifest_list_spec(list, 1, gosid, store) {
            Err(e) => Err(e),
            Ok((roots, objects, _)) => Ok(ObjectSpaceModel { id: gosid, roots, objects }),
        }
    }
}

impl ObjectSpace {
    /// Reads an object space if its manifest list reference is under the
    /// cursor; leaves the cursor where it is otherwise.
    pub fn try_parse(iterator: &mut FileNodeDataIterator, context: &ParseContext) -> (r: Result<
        Option<ObjectSpace>,
    >)
        requires
            old(iterator).wf(),
        ensures
            final(iterator).wf(),
            final(iterator).nodes() == old(iterator).nodes(),
            match old(iterator).spec_peek() {
                Some(FileNodeData::ObjectSpaceManifestListReferenceFND { gosid, last_revision }) => {
                    final(iterator).index() == old(iterator).index() + 1 && match object_space_spec(
                        gosid,
                        last_revision.file_node_sequence@,
                        context.store_view(),
                    ) {
                        Ok(m) => r matches Ok(Some(space)) && space@ == m && space.objects.wf(),
                        Err(e) => r == Err::<Option<ObjectSpace>, Error>(e),
                    }
                },
                _ => r matches Ok(None) && final(iterator).index() == old(iterator).index(),
            },
    {
        if let Some(FileNodeData::ObjectSpaceManifestListReferenceFND { gosid, last_revision }) =
            iterator.peek() {
            iterator.next();
            let space = ObjectSpace::parse(*gosid, last_revision, context)?;
            Ok(Some(space))
        } else {
            Ok(None)
        }
    }

    /// The object space `gosid` whose last revision manifest list is
    /// `list`.
    fn parse(gosid: ExGuid, list: &FileNodeList, context: &ParseContext) -> (r: Result<
        ObjectSpace,
    >)
        ensures
            match object_space_spec(gosid, list.file_node_sequence@, context.store_view()) {
                Ok(m) => r matches Ok(space) && space@ == m && space.objects.wf(),
                Err(e) => r == Err::<ObjectSpace, Error>(e),
            },
    {
        let context = context.with_context_id(gosid);
        let mut list_iterator = list.iter_data();
        let mut roots = Roots::new();
        let mut objects: ExGuidMap<crate::onestore::Object> = ExGuidMap::new();
        let parsed = RevisionManifestList::try_parse_into(
            &mut list_iterator,
            &context,
            &mut roots,
            &mut objects,
        )?;
        if parsed.is_none() {
            return Err(Error::new(ErrorKind::MissingRevisionManifestList));
        }
        Ok(ObjectSpace { id: gosid, roots, objects })
    }
}

/// The files of the file data store that the nodes from `i` on hold, given
/// those of one found before them; an error if there are two.
pub open spec fn find_store_spec(
    nodes: Seq<FileNodeData>,
    i: int,
    found: Option<Seq<(Guid, FileBlobModel)>>,
) -> Result<Option<Seq<(Guid, FileBlobModel)>>>
    decreases nodes.len() - i,
{
    if !(0 <= i < nodes.len()) {
        Ok(found)
    } else {
        match nodes[i] {
            FileNodeData::FileDataStoreListReferenceFND { list } => match file_list_spec(
                list.file_node_sequence@,
            ) {
                Err(e) => Err(e),
                Ok(files) => if found is Some {
                    Err(Error { kind: ErrorKind::DuplicateFileDataStore })
                } else {
                    find_store_spec(nodes, i + 1, Some(files))
                },
            },
            _ => find_store_spec(nodes, i + 1, found),
        }
    }
}

/// The object spaces that the nodes from `i` on hold, after `spaces`, and
/// the ID of the root object space that they name last (or `root`).
pub open spec fn spaces_spec(
    nodes: Seq<FileNodeData>,
    i: int,
    store: Option<Seq<(Guid, FileBlobModel)>>,
    spaces: Seq<ObjectSpaceModel>,
    root: Option<ExGuid>,
) -> Result<(Seq<ObjectSpaceModel>, Option<ExGuid>)>
    decreases nodes.len() - i,
{
    if !(0 <= i < nodes.len()) {
        Ok((spaces, root))
    } else {
        match nodes[i] {
            FileNodeData::ObjectSpaceManifestListReferenceFND { gosid, last_revision } => match object_space_spec(
                gosid,
                last_revision.file_node_sequence@,
                store,
            ) {
                Err(e) => Err(e),
                Ok(space) => spaces_spec(nodes, i + 1, store, spaces.push(space), root),
            },
            FileNodeData::FileDataStoreListReferenceFND { list } => match file_list_spec(
                list.file_node_sequence@,
            ) {
                Err(e) => Err(e),
                Ok(_) => spaces_spec(nodes, i + 1, store, spaces, root),
            },
            FileNodeData::ObjectSpaceManifestRootFND { gosid_root } => spaces_spec(
                nodes,
                i + 1,
                store,
                spaces,
                Some(gosid_root),
            ),
            _ => Err(Error { kind: ErrorKind::UnexpectedRootNode }),
        }
    }
}

/// The position of the first of `spaces` with the ID `id`.
pub open spec fn first_space_index(spaces: Seq<ObjectSpaceModel>, id: ExGuid) -> Option<int> {
    if exists|i: int| 0 <= i < spaces.len() && #[trigger] spaces[i].id == id {
        Some(
            choose|i: int|
                0 <= i < spaces.len() && #[trigger] spaces[i].id == id && forall|j: int|
                    0 <= j < i ==> spaces[j].id != id,
        )
    } else {
        None
    }
}

/// The object spaces of a root file node list and the position of its root
/// object space.
///
/// See [MS-ONESTORE] 2.1.14.
pub open spec fn root_file_node_list_spec(
    nodes: Seq<FileNodeData>,
    base_store: Option<Seq<(Guid, FileBlobModel)>>,
) -> Result<(Seq<ObjectSpaceModel>, int)> {
    match find_store_spec(nodes, 0, None) {
        Err(e) => Err(e),
        Ok(found) => match spaces_spec(
            nodes,
            0,
            match found {
                Some(f) => Some(f),
                None => base_store,
            },
            Seq::empty(),
            None,
        ) {
            Err(e) => Err(e),
            Ok((spaces, root)) => match root {
                None => Err(Error { kind: ErrorKind::MissingRootObjectSpaceId }),
                Some(id) => match first_space_index(spaces, id) {
                    None => Err(Error { kind: ErrorKind::MissingRootObjectSpace }),
                    Some(k) => Ok((spaces, k)),
                },
            },
        },
    }
}

/// The object spaces of a OneStore file, with the position of the root one.
///
/// See [MS-ONESTORE] 2.1.14 and 1.3.2.
#[derive(Debug)]
pub struct RootFileNodeList {
    pub root_object_space_index: usize,
    pub object_spaces: Vec<ObjectSpace>,
}

impl RootFileNodeList {
    /// The root object space lies among the object spaces.
    pub open spec fn wf(&self) -> bool {
        self.root_object_space_index < self.object_spaces@.len()
    }

    /// The contents of the object spaces, in order.
    pub open spec fn spaces_view(&self) -> Seq<ObjectSpaceModel> {
        self.object_spaces@.map_values(|s: ObjectSpace| s@)
    }

    /// The root object space.
    pub fn root_object_space(&self) -> (s: &ObjectSpace)
        requires
            self.wf(),
        ensures
            *s == self.object_spaces@[self.root_object_space_index as int],
    {
        &self.object_spaces[self.root_object_space_index]
    }

    /// Reads the root file node list.
    pub fn parse(node_list: &FileNodeList, context: &ParseContext) -> (r: Result<RootFileNodeList>)
        ensures
            match root_file_node_list_spec(node_list.file_node_sequence@, context.store_view()) {
                Ok((spaces, k)) => r matches Ok(l) && l.wf() && l.spaces_view() == spaces
                    && l.root_object_space_index == k,
                Err(e) => r == Err::<RootFileNodeList, Error>(e),
            },
    {
        let ghost nodes = node_list.file_node_sequence@;
        let mut file_data_store: Option<FileDataStore> = None;
        let mut iterator = node_list.iter_data();
        loop
            invariant_except_break
                iterator.wf(),
                iterator.nodes() == nodes,
                nodes == node_list.file_node_sequence@,
                find_store_spec(nodes, 0, None) == find_store_spec(
                    nodes,
                    iterator.index(),
                    match file_data_store {
                        Some(s) => Some(s.files_view()),
                        None => None,
                    },
                ),
            ensures
                iterator.wf(),
                nodes == node_list.file_node_sequence@,
                find_store_spec(nodes, 0, None) == Ok::<Option<Seq<(Guid, FileBlobModel)>>, Error>(
                    match file_data_store {
                        Some(s) => Some(s.files_view()),
                        None => None,
                    },
                ),
            decreases nodes.len() - iterator.index(),
        {
            if iterator.peek().is_none() {
                break;
            }
            match FileDataStore::try_parse(&mut iterator)? {
                Some(data_store) => {
                    if file_data_store.is_some() {
                        return Err(Error::new(ErrorKind::DuplicateFileDataStore));
                    }
                    file_data_store = Some(data_store);
                },
                None => {
                    iterator.next();
                },
            }
        }
        let ghost found = match &file_data_store {
            Some(s) => Some(s.files_view()),
            None => None,
        };
        let ghost store = match &file_data_store {
            Some(s) => Some(s.files_view()),
            None => context.store_view(),
        };
        let space_context = match &file_data_store {
            Some(store) => context.with_file_data_store(store),
            None => context.with_context_id(context.context_id),
        };
        let mut object_spaces: Vec<ObjectSpace> = Vec::new();
        let mut root_object_space_id: Option<ExGuid> = None;
        let mut iterator = node_list.iter_data();
        proof {
            assert(object_spaces@.map_values(|s: ObjectSpace| s@) =~= Seq::<ObjectSpaceModel>::empty());
        }
        loop
            invariant_except_break
                iterator.wf(),
                iterator.nodes() == nodes,
                nodes == node_list.file_node_sequence@,
                space_context.store_view() == store,
                find_store_spec(nodes, 0, None) == Ok::<Option<Seq<(Guid, FileBlobModel)>>, Error>(
                    found,
                ),
                store == match found {
                    Some(f) => Some(f),
                    None => context.store_view(),
                },
                spaces_spec(nodes, 0, store, Seq::empty(), None) == spaces_spec(
                    nodes,
                    iterator.index(),
                    store,
                    object_spaces@.map_values(|s: ObjectSpace| s@),
                    root_object_space_id,
                ),
            ensures
                nodes == node_list.file_node_sequence@,
                spaces_spec(nodes, 0, store, Seq::empty(), None) == Ok::<
                    (Seq<ObjectSpaceModel>, Option<ExGuid>),
                    Error,
                >((object_spaces@.map_values(|s: ObjectSpace| s@), root_object_space_id)),
            decreases nodes.len() - iterator.index(),
        {
            let current = match iterator.peek() {
                Some(n) => n,
                None => {
                    break;
                },
            };
            match ObjectSpace::try_parse(&mut iterator, &space_context)? {
                Some(object_space) => {
                    let ghost before = object_spaces@;
                    object_spaces.push(object_space);
                    proof {
                        assert(object_spaces@.map_values(|s: ObjectSpace| s@) =~= before.map_values(
                            |s: ObjectSpace| s@,
                        ).push(object_space@));
                    }
                },
                None => {
                    if FileDataStore::try_parse(&mut iterator)?.is_none() {
                        if let FileNodeData::ObjectSpaceManifestRootFND { gosid_root } = current {
                            iterator.next();
                            root_object_space_id = Some(*gosid_root);
                        } else {
                            return Err(Error::new(ErrorKind::UnexpectedRootNode));
                        }
                    }
                },
            }
        }
        let root_id = match root_object_space_id {
            Some(id) => id,
            None => {
                return Err(Error::new(ErrorKind::MissingRootObjectSpaceId));
            },
        };
        match find_space(&object_spaces, root_id) {
            Some(k) => Ok(RootFileNodeList { root_object_space_index: k, object_spaces }),
            None => Err(Error::new(ErrorKind::MissingRootObjectSpace)),
        }
    }
}

/// The position of the first of `spaces` with the ID `id`.
fn find_space(spaces: &Vec<ObjectSpace>, id: ExGuid) -> (r: Option<usize>)
    ensures
        match first_space_index(spaces@.map_values(|s: ObjectSpace| s@), id) {
            Some(k) => r matches Some(i) && i as int == k,
            None => r is None,
        },
        r matches Some(k) ==> k < spaces@.len(),
{
    let ghost models = spaces@.map_values(|s: ObjectSpace| s@);
    let mut k: usize = 0;
    while k < spaces.len()
        invariant
            k <= spaces@.len(),
            models == spaces@.map_values(|s: ObjectSpace| s@),
            forall|j: int| 0 <= j < k ==> models[j].id != id,
        decreases spaces@.len() - k,
    {
        if spaces[k].id == id {
            proof {
                lemma_first_space_index(models, id, k as int);
            }
            return Some(k);
        }
        k = k + 1;
    }
    None
}

/// A space with the ID `id` before which no space has it is the first.
proof fn lemma_first_space_index(spaces: Seq<ObjectSpaceModel>, id: ExGuid, k: int)
    requires
        0 <= k < spaces.len(),
        spaces[k].id == id,
        forall|j: int| 0 <= j < k ==> spaces[j].id != id,
    ensures
        first_space_index(spaces, id) == Some(k),
{
    let c = choose|i: int|
        0 <= i < spaces.len() && #[trigger] spaces[i].id == id && forall|j: int|
            0 <= j < i ==> spaces[j].id != id;
    assert(spaces[k].id == id);
    if c < k {
        assert(spaces[c].id != id);
    }
    if k < c {
        assert(spaces[k].id != id);
    }
}

} // verus!
