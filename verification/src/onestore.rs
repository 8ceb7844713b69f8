use crate::compact::CompactId;
use crate::errors::{decimal, decimal_text, digit_text, hex_digit_char, Error, ErrorKind, Result};
use crate::exguid::{CellId, ExGuid};
use crate::exguid_map::ExGuidMap;
use crate::property::{PropertyId, PropertySet, PropertySetModel, PropertyValue, PropertyValueModel, entries_get};
use vstd::prelude::*;
use vstd::string::*;
use vstd::slice::{slice_subrange, slice_to_vec};

verus! {

/// The type of a OneNote object (its JCID).
///
/// See [MS-ONESTORE] 2.6.14.
#[derive(Debug, PartialEq, Eq, Structural, Clone, Copy, Hash)]
pub struct JcId(pub u32);

/// Availability of binary data referenced by a OneNote object.
#[derive(Debug, PartialEq, Eq, Structural, Clone, Copy)]
pub enum FileDataStatus {
    /// The binary payload is available.
    Available,
    /// The OneNote object does not reference a binary payload.
    Missing,
    /// The OneNote object explicitly marks the binary payload as invalid.
    Invalid,
}

/// A contiguous run of bytes inside a source buffer, with its availability.
#[derive(Debug)]
pub struct FileBlob {
    source: Vec<u8>,
    offset: u64,
    size: u64,
    status: FileDataStatus,
}

/// The content of a [`FileBlob`]: its bytes and its availability.
pub struct FileBlobModel {
    pub content: Seq<u8>,
    pub status: FileDataStatus,
}

impl View for FileBlob {
    type V = FileBlobModel;

    closed spec fn view(&self) -> FileBlobModel {
        FileBlobModel {
            content: self.source@.subrange(self.offset as int, self.offset + self.size),
            status: self.status,
        }
    }
}

impl FileBlob {
    /// The slice lies inside its source.
    #[verifier::type_invariant]
    spec fn wf(&self) -> bool {
        self.offset + self.size <= self.source@.len()
    }

    /// The blob over `size` bytes of `source` starting at `offset`.
    pub fn from_source(source: Vec<u8>, offset: u64, size: u64) -> (b: FileBlob)
        requires
            offset + size <= source@.len(),
        ensures
            b@.content == source@.subrange(offset as int, offset + size),
            b@.status == FileDataStatus::Available,
    {
        FileBlob { source, offset, size, status: FileDataStatus::Available }
    }

    /// An available blob of no bytes.
    pub fn empty() -> (b: FileBlob)
        ensures
            b@.content.len() == 0,
            b@.status == FileDataStatus::Available,
    {
        FileBlob { source: Vec::new(), offset: 0, size: 0, status: FileDataStatus::Available }
    }

    /// A blob standing for data that an object does not reference.
    pub fn missing() -> (b: FileBlob)
        ensures
            b@.content.len() == 0,
            b@.status == FileDataStatus::Missing,
    {
        FileBlob { source: Vec::new(), offset: 0, size: 0, status: FileDataStatus::Missing }
    }

    /// A blob standing for data that an object marks as invalid.
    pub fn invalid() -> (b: FileBlob)
        ensures
            b@.content.len() == 0,
            b@.status == FileDataStatus::Invalid,
    {
        FileBlob { source: Vec::new(), offset: 0, size: 0, status: FileDataStatus::Invalid }
    }

    /// The availability of the data.
    pub fn status(&self) -> (s: FileDataStatus)
        ensures
            s == self@.status,
    {
        self.status
    }

    /// The size of the blob in bytes.
    pub fn size(&self) -> (n: u64)
        ensures
            n == self@.content.len(),
    {
        proof {
            use_type_invariant(self);
        }
        self.size
    }

    /// The bytes of the blob.
    pub fn read(&self) -> (data: Vec<u8>)
        ensures
            data@ == self@.content,
    {
        proof {
            use_type_invariant(self);
        }
        let len = self.source.len();
        assert(self.offset + self.size <= len);
        let start = self.offset as usize;
        let end = start + self.size as usize;
        let s = slice_subrange(self.source.as_slice(), start, end);
        slice_to_vec(s)
    }

    /// A copy of this blob.
    pub fn duplicate(&self) -> (b: FileBlob)
        ensures
            b@ == self@,
    {
        proof {
            use_type_invariant(self);
        }
        FileBlob {
            source: slice_to_vec(self.source.as_slice()),
            offset: self.offset,
            size: self.size,
            status: self.status,
        }
    }
}

/// The lower-case hexadecimal notation of `bytes`, two digits per byte.
pub open spec fn hex_text(bytes: Seq<u8>) -> Seq<char>
    decreases bytes.len(),
{
    if bytes.len() == 0 {
        Seq::empty()
    } else {
        hex_text(bytes.drop_last()) + seq![
            hex_digit_char((bytes.last() / 16) as nat),
            hex_digit_char((bytes.last() % 16) as nat),
        ]
    }
}

/// The name of the availability `s`.
pub open spec fn status_name(s: FileDataStatus) -> Seq<char> {
    match s {
        FileDataStatus::Available => "Available"@,
        FileDataStatus::Missing => "Missing"@,
        FileDataStatus::Invalid => "Invalid"@,
    }
}

/// The short description of a blob: its availability when its data is
/// not available; otherwise its first and last (up to) 32 bytes in
/// hexadecimal and its size in whole KiB.
pub open spec fn blob_description(m: FileBlobModel) -> Seq<char> {
    if m.status != FileDataStatus::Available {
        "FileBlob [ "@ + status_name(m.status) + "; 0 KiB ]"@
    } else {
        let len = m.content.len();
        let head: int = if len < 32 {
            len as int
        } else {
            32
        };
        "FileBlob [ "@ + hex_text(m.content.take(head)) + " ... "@ + hex_text(
            m.content.skip(len - head),
        ) + "; "@ + decimal(len / 1024) + " KiB ]"@
    }
}

/// The hexadecimal notation of `bytes`.
fn hex_string(bytes: &[u8]) -> (s: String)
    ensures
        s@ == hex_text(bytes@),
{
    let mut s = String::new();
    let mut k: usize = 0;
    proof {
        assert(bytes@.take(0) =~= Seq::<u8>::empty());
    }
    while k < bytes.len()
        invariant
            0 <= k <= bytes@.len(),
            s@ == hex_text(bytes@.take(k as int)),
        decreases bytes@.len() - k,
    {
        let b = bytes[k];
        s = s.concat(digit_text(b / 16)).concat(digit_text(b % 16));
        proof {
            assert(bytes@.take(k + 1).drop_last() =~= bytes@.take(k as int));
            assert(bytes@.take(k + 1).last() == b);
        }
        k += 1;
    }
    proof {
        assert(bytes@.take(bytes@.len() as int) =~= bytes@);
    }
    s
}

/// The name of the availability `s`.
fn status_text(s: FileDataStatus) -> (t: &'static str)
    ensures
        t@ == status_name(s),
{
    match s {
        FileDataStatus::Available => "Available",
        FileDataStatus::Missing => "Missing",
        FileDataStatus::Invalid => "Invalid",
    }
}

impl FileBlob {
    /// A short description of the blob for diagnostics, such as
    /// `FileBlob [ 0102 ... 0102; 0 KiB ]`: its availability when its data
    /// is not available; otherwise its first and last (up to) 32 bytes in
    /// hexadecimal and its size in whole KiB.
    pub fn describe(&self) -> (s: String)
        ensures
            s@ == blob_description(self@),
    {
        proof {
            reveal_strlit("FileBlob [ ");
            reveal_strlit("; 0 KiB ]");
            reveal_strlit(" ... ");
            reveal_strlit("; ");
            reveal_strlit(" KiB ]");
        }
        match self.status {
            FileDataStatus::Available => {},
            st => {
                return String::from_str("FileBlob [ ").concat(status_text(st)).concat("; 0 KiB ]");
            },
        }
        let data = self.read();
        let len = data.len();
        let head_len: usize = if len < 32 {
            len
        } else {
            32
        };
        let first = hex_string(slice_subrange(data.as_slice(), 0, head_len));
        let last = hex_string(slice_subrange(data.as_slice(), len - head_len, len));
        proof {
            assert(data@.subrange(0, head_len as int) =~= data@.take(head_len as int));
            assert(data@.subrange(len - head_len, len as int) =~= data@.skip(len - head_len));
        }
        String::from_str("FileBlob [ ").concat(first.as_str()).concat(" ... ").concat(
            last.as_str(),
        ).concat("; ").concat(decimal_text((len / 1024) as u64).as_str()).concat(" KiB ]")
    }
}

/// The properties of an object together with the compact IDs of the
/// objects, object spaces and contexts that its properties refer to.
///
/// See [MS-ONESTORE] 2.6.1.
#[derive(Debug)]
pub struct ObjectPropSet {
    pub object_ids: Vec<CompactId>,
    pub object_space_ids: Vec<CompactId>,
    pub context_ids: Vec<CompactId>,
    pub properties: PropertySet,
}

/// The content of an [`ObjectPropSet`].
pub struct ObjectPropSetModel {
    pub object_ids: Seq<CompactId>,
    pub object_space_ids: Seq<CompactId>,
    pub context_ids: Seq<CompactId>,
    pub properties: PropertySetModel,
}

impl View for ObjectPropSet {
    type V = ObjectPropSetModel;

    open spec fn view(&self) -> ObjectPropSetModel {
        ObjectPropSetModel {
            object_ids: self.object_ids@,
            object_space_ids: self.object_space_ids@,
            context_ids: self.context_ids@,
            properties: self.properties.model(),
        }
    }
}

/// The content of a property set with no properties and no references.
pub open spec fn empty_prop_set_model() -> ObjectPropSetModel {
    ObjectPropSetModel {
        object_ids: Seq::empty(),
        object_space_ids: Seq::empty(),
        context_ids: Seq::empty(),
        properties: PropertySetModel { entries: Seq::empty() },
    }
}

impl ObjectPropSet {
    /// A property set with no properties and no references.
    pub fn new_empty() -> (p: ObjectPropSet)
        ensures
            p@ == empty_prop_set_model(),
    {
        let p = ObjectPropSet {
            object_ids: Vec::new(),
            object_space_ids: Vec::new(),
            context_ids: Vec::new(),
            properties: PropertySet::new_empty(),
        };
        assert(p@.object_ids =~= Seq::<CompactId>::empty());
        assert(p@.object_space_ids =~= Seq::<CompactId>::empty());
        assert(p@.context_ids =~= Seq::<CompactId>::empty());
        assert(p@.properties.entries =~= Seq::<(PropertyId, PropertyValueModel)>::empty());
        p
    }

    /// The value of property `id`.
    pub fn get(&self, id: PropertyId) -> (r: Option<&PropertyValue>)
        ensures
            match entries_get(self@.properties.entries, id.0) {
                Some(m) => r matches Some(x) && x.model() == m,
                None => r is None,
            },
    {
        self.properties.get(id)
    }

    /// A copy with the same content.
    pub fn duplicate(&self) -> (p: ObjectPropSet)
        ensures
            p@ == self@,
    {
        ObjectPropSet {
            object_ids: slice_to_vec(self.object_ids.as_slice()),
            object_space_ids: slice_to_vec(self.object_space_ids.as_slice()),
            context_ids: slice_to_vec(self.context_ids.as_slice()),
            properties: self.properties.duplicate(),
        }
    }
}

/// A OneNote data object.
///
/// See [MS-ONESTORE] 2.1.5 and 2.7.6.
#[derive(Debug)]
pub struct Object {
    pub context_id: ExGuid,
    pub jc_id: JcId,
    pub props: ObjectPropSet,
    pub file_data: Option<FileBlob>,
}

/// The content of an [`Object`].
pub struct ObjectModel {
    pub context_id: ExGuid,
    pub jc_id: JcId,
    pub props: ObjectPropSetModel,
    pub file_data: Option<FileBlobModel>,
}

impl View for Object {
    type V = ObjectModel;

    open spec fn view(&self) -> ObjectModel {
        ObjectModel {
            context_id: self.context_id,
            jc_id: self.jc_id,
            props: self.props@,
            file_data: match self.file_data {
                Some(b) => Some(b@),
                None => None,
            },
        }
    }
}

impl Object {
    /// The type of the object.
    pub fn id(&self) -> (j: JcId)
        ensures
            j == self.jc_id,
    {
        self.jc_id
    }

    /// A copy with the same content.
    pub fn duplicate(&self) -> (o: Object)
        ensures
            o@ == self@,
    {
        let file_data = match &self.file_data {
            Some(b) => Some(b.duplicate()),
            None => None,
        };
        Object {
            context_id: self.context_id,
            jc_id: self.jc_id,
            props: self.props.duplicate(),
            file_data,
        }
    }
}

/// The role of a root object in an object space.
///
/// See [MS-ONE] 2.1.8.
#[derive(Debug, PartialEq, Eq, Structural, Clone, Copy, Hash)]
pub enum RootRole {
    DefaultContent,
    MetadataRoot,
    VersionMetadataRoot,
}

/// The root objects of an object space, one per role.
#[derive(Debug, PartialEq, Eq, Structural, Clone, Copy)]
pub struct Roots {
    pub default_content: Option<ExGuid>,
    pub metadata_root: Option<ExGuid>,
    pub version_metadata_root: Option<ExGuid>,
}

/// The role with the number `value`, if it names one.
pub open spec fn root_role_spec(value: u32) -> Option<RootRole> {
    if value == 1 {
        Some(RootRole::DefaultContent)
    } else if value == 2 {
        Some(RootRole::MetadataRoot)
    } else if value == 4 {
        Some(RootRole::VersionMetadataRoot)
    } else {
        None
    }
}

impl RootRole {
    /// The role with the number `value` (see [MS-ONE] 2.1.8).
    pub fn try_from(value: u32) -> (r: Result<RootRole>)
        ensures
            match root_role_spec(value) {
                Some(role) => r == Ok::<RootRole, Error>(role),
                None => r == Err::<RootRole, Error>(
                    Error { kind: ErrorKind::InvalidRootRole { role: value } },
                ),
            },
    {
        if value == 1 {
            Ok(RootRole::DefaultContent)
        } else if value == 2 {
            Ok(RootRole::MetadataRoot)
        } else if value == 4 {
            Ok(RootRole::VersionMetadataRoot)
        } else {
            Err(Error::new(ErrorKind::InvalidRootRole { role: value }))
        }
    }
}

/// No roots.
pub open spec fn no_roots() -> Roots {
    Roots { default_content: None, metadata_root: None, version_metadata_root: None }
}

/// `r` with the root of `role` set to `id`.
pub open spec fn with_root(r: Roots, role: RootRole, id: ExGuid) -> Roots {
    match role {
        RootRole::DefaultContent => Roots { default_content: Some(id), ..r },
        RootRole::MetadataRoot => Roots { metadata_root: Some(id), ..r },
        RootRole::VersionMetadataRoot => Roots { version_metadata_root: Some(id), ..r },
    }
}

/// `r` with each root of `other` replacing the root of the same role.
pub open spec fn extend_roots(r: Roots, other: Roots) -> Roots {
    Roots {
        default_content: match other.default_content {
            Some(id) => Some(id),
            None => r.default_content,
        },
        metadata_root: match other.metadata_root {
            Some(id) => Some(id),
            None => r.metadata_root,
        },
        version_metadata_root: match other.version_metadata_root {
            Some(id) => Some(id),
            None => r.version_metadata_root,
        },
    }
}

impl Roots {
    /// The root of `role`.
    pub open spec fn spec_get(&self, role: RootRole) -> Option<ExGuid> {
        match role {
            RootRole::DefaultContent => self.default_content,
            RootRole::MetadataRoot => self.metadata_root,
            RootRole::VersionMetadataRoot => self.version_metadata_root,
        }
    }

    /// No roots.
    pub fn new() -> (r: Roots)
        ensures
            r == no_roots(),
    {
        Roots { default_content: None, metadata_root: None, version_metadata_root: None }
    }

    /// The root of `role`.
    pub fn get(&self, role: RootRole) -> (r: Option<ExGuid>)
        ensures
            r == self.spec_get(role),
    {
        match role {
            RootRole::DefaultContent => self.default_content,
            RootRole::MetadataRoot => self.metadata_root,
            RootRole::VersionMetadataRoot => self.version_metadata_root,
        }
    }

    /// Sets the root of `role`, replacing any earlier one.
    pub fn insert(&mut self, role: RootRole, id: ExGuid)
        ensures
            *final(self) == with_root(*old(self), role, id),
    {
        match role {
            RootRole::DefaultContent => self.default_content = Some(id),
            RootRole::MetadataRoot => self.metadata_root = Some(id),
            RootRole::VersionMetadataRoot => self.version_metadata_root = Some(id),
        }
    }

    /// Each root of `other` replaces the root of the same role.
    pub fn extend(&mut self, other: &Roots)
        ensures
            *final(self) == extend_roots(*old(self), *other),
    {
        if let Some(id) = other.default_content {
            self.default_content = Some(id);
        }
        if let Some(id) = other.metadata_root {
            self.metadata_root = Some(id);
        }
        if let Some(id) = other.version_metadata_root {
            self.version_metadata_root = Some(id);
        }
    }
}

/// What a OneStore file holds: a notebook's table of contents (`.onetoc2`)
/// or a section (`.one`).
#[derive(Debug, PartialEq, Eq, Structural, Clone, Copy)]
pub enum OneStoreType {
    TableOfContents,
    Section,
}

/// A collection of objects with its root objects, such as a section's
/// metadata or a page with its content.
///
/// See [MS-ONESTORE] 2.1.4.
#[derive(Debug)]
pub struct ObjectSpace {
    pub id: ExGuid,
    pub roots: Roots,
    pub objects: ExGuidMap<Object>,
}

/// The content of an [`ObjectSpace`].
pub struct ObjectSpaceModel {
    pub id: ExGuid,
    pub roots: Roots,
    pub objects: Map<ExGuid, ObjectModel>,
}

impl View for ObjectSpace {
    type V = ObjectSpaceModel;

    open spec fn view(&self) -> ObjectSpaceModel {
        ObjectSpaceModel { id: self.id, roots: self.roots, objects: self.objects@ }
    }
}

impl ObjectSpace {
    /// The object with the given ID.
    pub fn get_object(&self, id: ExGuid) -> (r: Option<&Object>)
        requires
            self.objects.wf(),
        ensures
            self.objects@.contains_key(id) ==> (r matches Some(o) && o@ == self.objects@[id]),
            !self.objects@.contains_key(id) ==> r is None,
    {
        self.objects.get(&id)
    }

    /// The root of the default content.
    pub fn content_root(&self) -> (r: Option<ExGuid>)
        ensures
            r == self.roots.spec_get(RootRole::DefaultContent),
    {
        self.roots.get(RootRole::DefaultContent)
    }

    /// The root of the metadata.
    pub fn metadata_root(&self) -> (r: Option<ExGuid>)
        ensures
            r == self.roots.spec_get(RootRole::MetadataRoot),
    {
        self.roots.get(RootRole::MetadataRoot)
    }
}

/// Resolves the compact IDs that an object's properties hold.
pub trait MappingTable {
    /// The extended GUID that `cid`, at position `index` of its table,
    /// stands for.
    spec fn spec_resolve_id(&self, index: usize, cid: CompactId) -> Option<ExGuid>;

    /// The cell that `cid`, at position `index` of its table, stands for.
    spec fn spec_get_object_space(&self, index: usize, cid: CompactId) -> Option<CellId>;

    /// The extended GUID that `cid` stands for.
    fn resolve_id(&self, index: usize, cid: &CompactId) -> (r: Option<ExGuid>)
        ensures
            r == self.spec_resolve_id(index, *cid),
    ;

    /// The cell of the object space that `cid` stands for.
    fn get_object_space(&self, index: usize, cid: &CompactId) -> (r: Option<CellId>)
        ensures
            r == self.spec_get_object_space(index, *cid),
    ;
}

} // verus!
