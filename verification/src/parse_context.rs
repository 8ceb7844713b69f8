use crate::errors::{Error, ErrorKind, Result};
use crate::compact::CompactId;
use crate::exguid::{nil_exguid, CellId, ExGuid};
use crate::global_id_table::GlobalIdTable;
use crate::file_node::{AttachmentInfo, FileNodeData, FileNodeDataIterator, FileNodeList};
use crate::guid::{uuid_parse_str_value, Guid};
use crate::onestore::{FileBlob, FileBlobModel, FileDataStatus};
use crate::text::{after_chars, has_prefix, starts_with};
use vstd::prelude::*;

verus! {

/// A file of the file data store: its identifier and its data.
#[derive(Debug)]
pub struct File {
    pub id: Guid,
    pub file_data: FileBlob,
}

/// The files embedded in a OneStore file.
///
/// See [MS-ONESTORE] 2.5.21.
#[derive(Debug)]
pub struct FileDataStore {
    pub files: Vec<File>,
}

/// The identifier and data of a file that `node` references, if it is a
/// file data store object reference.
pub open spec fn file_entry_of(node: FileNodeData) -> Option<(Guid, FileBlobModel)> {
    match node {
        FileNodeData::FileDataStoreObjectReferenceFND { guid, file_data } => Some(
            (guid, file_data@),
        ),
        _ => None,
    }
}

/// The files that a file data store list holds, or the error for a node
/// that is not a file reference.
pub open spec fn file_list_spec(nodes: Seq<FileNodeData>) -> Result<Seq<(Guid, FileBlobModel)>> {
    if forall|i: int| 0 <= i < nodes.len() ==> (#[trigger] file_entry_of(nodes[i])) is Some {
        Ok(nodes.map_values(|n: FileNodeData| file_entry_of(n)->0))
    } else {
        Err(Error { kind: ErrorKind::UnexpectedFileDataStoreItem })
    }
}

/// The position of the first file of `files` with the GUID value `v`.
pub open spec fn first_file_index(files: Seq<(Guid, FileBlobModel)>, v: u128) -> Option<int> {
    if exists|i: int| 0 <= i < files.len() && #[trigger] files[i].0.value == v {
        Some(
            choose|i: int|
                0 <= i < files.len() && #[trigger] files[i].0.value == v && forall|j: int|
                    0 <= j < i ==> files[j].0.value != v,
        )
    } else {
        None
    }
}

/// The data of the file whose identifier is written in `id`.
pub open spec fn find_file_spec(files: Seq<(Guid, FileBlobModel)>, id: Seq<char>) -> Result<
    FileBlobModel,
> {
    match uuid_parse_str_value(id) {
        None => Err(Error { kind: ErrorKind::InvalidUuid }),
        Some(v) => match first_file_index(files, v) {
            Some(i) => Ok(files[i].1),
            None => Err(Error { kind: ErrorKind::FileNotFound }),
        },
    }
}

/// The data that a file reference string designates, given the files of
/// the file data store, if one was loaded.
///
/// See [MS-ONESTORE] 2.5.27.
pub open spec fn file_reference_spec(
    data_ref: Seq<char>,
    store: Option<Seq<(Guid, FileBlobModel)>>,
) -> Result<FileBlobModel> {
    if starts_with(data_ref, "<ifndf>"@) {
        match store {
            None => Err(Error { kind: ErrorKind::FileDataStoreNotLoaded }),
            Some(files) => find_file_spec(files, data_ref.skip("<ifndf>"@.len() as int)),
        }
    } else if starts_with(data_ref, "<file>"@) {
        Err(Error { kind: ErrorKind::ExternalFileUnsupported })
    } else if starts_with(data_ref, "<invfdo>"@) {
        Ok(FileBlobModel { content: Seq::empty(), status: FileDataStatus::Invalid })
    } else {
        Err(Error { kind: ErrorKind::UnresolvedFileReference })
    }
}

/// The result `r` of a lookup is the one that `spec` describes.
pub open spec fn blob_result_matches(r: Result<FileBlob>, spec: Result<FileBlobModel>) -> bool {
    match spec {
        Ok(m) => r matches Ok(b) && b@ == m,
        Err(e) => r == Err::<FileBlob, Error>(e),
    }
}

/// A file with the value `v` before which no file has it is the first.
proof fn lemma_first_file_index(files: Seq<(Guid, FileBlobModel)>, v: u128, k: int)
    requires
        0 <= k < files.len(),
        files[k].0.value == v,
        forall|j: int| 0 <= j < k ==> files[j].0.value != v,
    ensures
        first_file_index(files, v) == Some(k),
{
    let c = choose|i: int|
        0 <= i < files.len() && #[trigger] files[i].0.value == v && forall|j: int|
            0 <= j < i ==> files[j].0.value != v;
    assert(files[k].0.value == v);
    if c < k {
        assert(files[c].0.value != v);
    }
    if k < c {
        assert(files[k].0.value != v);
    }
}

impl FileDataStore {
    /// The identifiers and data of the files, in order.
    pub open spec fn files_view(&self) -> Seq<(Guid, FileBlobModel)> {
        self.files@.map_values(|f: File| (f.id, f.file_data@))
    }

    /// Reads a file data store if its list reference is under the cursor;
    /// leaves the cursor where it is otherwise.
    pub fn try_parse(iterator: &mut FileNodeDataIterator) -> (r: Result<Option<FileDataStore>>)
        requires
            old(iterator).wf(),
        ensures
            final(iterator).wf(),
            final(iterator).nodes() == old(iterator).nodes(),
            match old(iterator).spec_peek() {
                Some(FileNodeData::FileDataStoreListReferenceFND { list }) => final(iterator).index()
                    == old(iterator).index() + 1 && match file_list_spec(
                    list.file_node_sequence@,
                ) {
                    Ok(files) => r matches Ok(Some(store)) && store.files_view() == files,
                    Err(e) => r == Err::<Option<FileDataStore>, Error>(e),
                },
                _ => r matches Ok(None) && final(iterator).index() == old(iterator).index(),
            },
    {
        if let Some(FileNodeData::FileDataStoreListReferenceFND { list }) = iterator.peek() {
            iterator.next();
            let store = FileDataStore::from_reference(list)?;
            Ok(Some(store))
        } else {
            Ok(None)
        }
    }

    /// The file data store that a file data store list describes.
    pub fn from_reference(list: &FileNodeList) -> (r: Result<FileDataStore>)
        ensures
            match file_list_spec(list.file_node_sequence@) {
                Ok(files) => r matches Ok(store) && store.files_view() == files,
                Err(e) => r == Err::<FileDataStore, Error>(e),
            },
    {
        let nodes = &list.file_node_sequence;
        let mut files: Vec<File> = Vec::new();
        let mut k: usize = 0;
        while k < nodes.len()
            invariant
                nodes@ == list.file_node_sequence@,
                k <= nodes@.len(),
                files@.len() == k,
                forall|i: int| 0 <= i < k ==> (#[trigger] file_entry_of(nodes@[i])) is Some,
                forall|i: int|
                    0 <= i < k ==> (files@[i].id, files@[i].file_data@) == #[trigger] file_entry_of(
                        nodes@[i],
                    )->0,
            decreases nodes@.len() - k,
        {
            match &nodes[k] {
                FileNodeData::FileDataStoreObjectReferenceFND { guid, file_data } => {
                    files.push(File { id: *guid, file_data: file_data.duplicate() });
                },
                _ => {
                    assert(file_entry_of(nodes@[k as int]) is None);
                    assert(!(forall|i: int|
                        0 <= i < nodes@.len() ==> (#[trigger] file_entry_of(nodes@[i])) is Some));
                    return Err(Error::new(ErrorKind::UnexpectedFileDataStoreItem));
                },
            }
            k = k + 1;
        }
        let store = FileDataStore { files };
        assert(store.files_view() =~= nodes@.map_values(
            |n: FileNodeData| file_entry_of(n)->0,
        ));
        Ok(store)
    }

    /// The data of the file whose identifier is written in `id`.
    pub fn find_file(&self, id: &str) -> (r: Result<FileBlob>)
        ensures
            blob_result_matches(r, find_file_spec(self.files_view(), id@)),
    {
        let guid = Guid::from_str(id)?;
        let ghost files = self.files_view();
        let mut k: usize = 0;
        while k < self.files.len()
            invariant
                k <= self.files@.len(),
                files == self.files_view(),
                uuid_parse_str_value(id@) == Some(guid.value),
                forall|j: int| 0 <= j < k ==> files[j].0.value != guid.value,
            decreases self.files@.len() - k,
        {
            if self.files[k].id.value == guid.value {
                proof {
                    lemma_first_file_index(files, guid.value, k as int);
                }
                return Ok(self.files[k].file_data.duplicate());
            }
            k = k + 1;
        }
        Err(Error::new(ErrorKind::FileNotFound))
    }
}

/// What the mid-level parsers share: the object space being read and the
/// file data store of the file, once it is loaded.
pub struct ParseContext<'a> {
    /// The ID of the object space that contains the current node.
    pub context_id: ExGuid,
    pub file_data_store: Option<&'a FileDataStore>,
}

impl<'a> ParseContext<'a> {
    /// The files of the loaded file data store, if any.
    pub open spec fn store_view(&self) -> Option<Seq<(Guid, FileBlobModel)>> {
        match self.file_data_store {
            Some(s) => Some(s.files_view()),
            None => None,
        }
    }

    /// A context in the nil object space, without a file data store.
    pub fn new() -> (c: ParseContext<'a>)
        ensures
            c.context_id == nil_exguid(),
            c.store_view() is None,
    {
        ParseContext { context_id: ExGuid::default(), file_data_store: None }
    }

    /// This context, in the object space `context_id`.
    pub fn with_context_id(&self, context_id: ExGuid) -> (c: ParseContext<'a>)
        ensures
            c.context_id == context_id,
            c.store_view() == self.store_view(),
    {
        ParseContext { context_id, file_data_store: self.file_data_store }
    }

    /// This context, with `store` as its file data store.
    pub fn with_file_data_store<'b>(&self, store: &'b FileDataStore) -> (c: ParseContext<'b>)
        ensures
            c.context_id == self.context_id,
            c.store_view() == Some(store.files_view()),
    {
        ParseContext { context_id: self.context_id, file_data_store: Some(store) }
    }

    /// The data that an attachment refers to.
    ///
    /// An attachment marked invalid yields an empty blob with that status;
    /// one inside the file needs the file data store.
    pub fn find_file_data(&self, info: &AttachmentInfo) -> (r: Result<FileBlob>)
        ensures
            blob_result_matches(r, file_reference_spec(info.data_ref@, self.store_view())),
    {
        info.load_data(self.file_data_store)
    }
}

impl AttachmentInfo {
    /// The data that this attachment refers to, looked up in
    /// `file_data_store` where it lies inside the file.
    ///
    /// See [MS-ONESTORE] 2.5.27.
    pub fn load_data(&self, file_data_store: Option<&FileDataStore>) -> (r: Result<FileBlob>)
        ensures
            blob_result_matches(
                r,
                file_reference_spec(
                    self.data_ref@,
                    match file_data_store {
                        Some(s) => Some(s.files_view()),
                        None => None,
                    },
                ),
            ),
    {
        let data_ref = self.data_ref.as_str();
        if has_prefix(data_ref, "<ifndf>") {
            let id = after_chars(data_ref, "<ifndf>".unicode_len());
            match file_data_store {
                Some(store) => store.find_file(id),
                None => Err(Error::new(ErrorKind::FileDataStoreNotLoaded)),
            }
        } else if has_prefix(data_ref, "<file>") {
            Err(Error::new(ErrorKind::ExternalFileUnsupported))
        } else if has_prefix(data_ref, "<invfdo>") {
            let b = FileBlob::invalid();
            assert(b@.content =~= Seq::<u8>::empty());
            Ok(b)
        } else {
            Err(Error::new(ErrorKind::UnresolvedFileReference))
        }
    }
}

/// A reference marked invalid yields an empty blob with that status,
/// whether or not a file data store was loaded.
pub proof fn law_invalid_reference_needs_no_store(
    data_ref: Seq<char>,
    store: Option<Seq<(Guid, FileBlobModel)>>,
)
    requires
        starts_with(data_ref, "<invfdo>"@),
    ensures
        file_reference_spec(data_ref, store) == Ok::<FileBlobModel, Error>(
            FileBlobModel { content: Seq::empty(), status: FileDataStatus::Invalid },
        ),
{
    reveal_strlit("<invfdo>");
    reveal_strlit("<ifndf>");
    reveal_strlit("<file>");
    assert("<invfdo>"@[1] == 'i' && "<invfdo>"@[2] == 'n');
    assert(data_ref.take(8)[1] == 'i' && data_ref.take(8)[2] == 'n');
    assert(data_ref[1] == 'i' && data_ref[2] == 'n');
    assert(!starts_with(data_ref, "<ifndf>"@)) by {
        if starts_with(data_ref, "<ifndf>"@) {
            assert("<ifndf>"@[2] == 'f');
            assert(data_ref.take(7)[2] == 'f');
        }
    }
    assert(!starts_with(data_ref, "<file>"@)) by {
        if starts_with(data_ref, "<file>"@) {
            assert("<file>"@[1] == 'f');
            assert(data_ref.take(6)[1] == 'f');
        }
    }
}

/// A reference into the file fails when no file data store was loaded.
pub proof fn law_internal_reference_needs_store(data_ref: Seq<char>)
    requires
        starts_with(data_ref, "<ifndf>"@),
    ensures
        file_reference_spec(data_ref, None) == Err::<FileBlobModel, Error>(
            Error { kind: ErrorKind::FileDataStoreNotLoaded },
        ),
{
}


/// The compact IDs of a region of the file, resolved through its global
/// identification table whatever their position.
#[derive(Debug)]
pub struct ParseContextIdMapping {
    pub id_table: GlobalIdTable,
}

impl ParseContextIdMapping {
    /// The mapping of a copy of `id_table`.
    pub fn new(id_table: &GlobalIdTable) -> (m: ParseContextIdMapping)
        ensures
            m.id_table.id_map@ == id_table.id_map@,
    {
        ParseContextIdMapping { id_table: id_table.duplicate() }
    }
}

impl crate::onestore::MappingTable for ParseContextIdMapping {
    open spec fn spec_resolve_id(&self, index: usize, cid: CompactId) -> Option<ExGuid> {
        match self.id_table.id_map@.get(cid.guid_index) {
            Some(g) => Some(ExGuid { guid: g, value: cid.n as u32 }),
            None => None,
        }
    }

    open spec fn spec_get_object_space(&self, index: usize, cid: CompactId) -> Option<CellId> {
        match self.spec_resolve_id(index, cid) {
            Some(id) => Some(CellId(id, nil_exguid())),
            None => None,
        }
    }

    fn resolve_id(&self, _index: usize, cid: &CompactId) -> (r: Option<ExGuid>) {
        match self.id_table.resolve_id(cid) {
            Ok(id) => Some(id),
            Err(_) => None,
        }
    }

    fn get_object_space(&self, _index: usize, cid: &CompactId) -> (r: Option<CellId>) {
        match self.id_table.resolve_id(cid) {
            Ok(id) => Some(CellId(id, ExGuid::default())),
            Err(_) => None,
        }
    }
}

} // verus!
