use vstd::prelude::*;
use vstd::string::*;

verus! {

/// The ways in which parsing a OneNote file can fail.
#[derive(Debug, PartialEq, Eq, Clone)]
pub enum ErrorKind {
    /// The input ended before a complete value could be read.
    UnexpectedEof,
    /// A string is not a GUID in any of the accepted notations.
    InvalidUuid,
    /// The first byte of an extended GUID matches none of its encodings.
    InvalidExGuidTag { first_byte: u8 },
    /// The first byte of a compact 64-bit integer matches none of its widths.
    InvalidCompactU64Tag { first_byte: u8 },
    /// A property identifier names a property type that does not exist.
    UnexpectedPropertyType { prop_type: u32 },
    /// A compact ID refers to an index that its global identification table
    /// does not map.
    UnresolvedCompactId { guid_index: u32 },
    /// A global identification table inherits an index that the table of the
    /// dependency revision does not map.
    MissingDependencyMapping { index: u32 },
    /// A global identification table copies a range of indices although its
    /// revision depends on no other revision.
    CopyWithoutDependencyTable,
    /// The source range of a copied index range does not fit in 32 bits.
    CopySourceOverflow { start: u32, count: u32 },
    /// The destination range of a copied index range leaves the 24-bit index
    /// space of compact IDs.
    CopyDestinationOutOfRange { start: u32, count: u32 },
    /// A copied index range names a source index that the table of the
    /// dependency revision does not map.
    MissingCopySource { index: u32 },
    /// A global identification table holds a node that does not belong there.
    UnexpectedGlobalIdTableNode,
    /// A revision does not start with a revision manifest start node.
    InvalidRevisionStart,
    /// A revision depends on a revision that was not declared before it.
    UndeclaredDependency,
    /// A root object is named by a compact ID before any global identification table.
    MissingRootIdTable,
    /// A revision holds a node that does not belong there.
    UnexpectedRevisionNode,
    /// An object revision revises an object that its revision and the revisions it depends on do not declare.
    UndeclaredObjectRevision,
    /// A revision manifest list holds a node that does not belong there.
    UnexpectedRevisionManifestListNode,
    /// Two revisions of a revision manifest list have the same identifier.
    DuplicateRevision,
    /// A revision manifest list labels no revision as the active content of the default context.
    NoActiveRevision,
    /// The dependency chain of the active revision names an undeclared revision.
    UndeclaredRevisionInChain,
    /// A revision role declaration names an undeclared revision.
    UndeclaredLabelTarget,
    /// An object group list does not start with an object group start node.
    MissingObjectGroupStart,
    /// An object group list has no global identification table.
    MissingObjectGroupIdTable,
    /// An object group list holds a node that does not belong there.
    UnexpectedObjectGroupNode,
    /// A file data store list holds a node that is not a file data store object reference.
    UnexpectedFileDataStoreItem,
    /// No file of the file data store has the requested identifier.
    FileNotFound,
    /// The root file node list holds more than one file data store.
    DuplicateFileDataStore,
    /// An attachment refers to an external file, which is not supported.
    ExternalFileUnsupported,
    /// An attachment reference has none of the known prefixes.
    UnresolvedFileReference,
    /// An attachment refers to the file data store, but none was loaded.
    FileDataStoreNotLoaded,
    /// An object space does not refer to a revision manifest list.
    MissingRevisionManifestList,
    /// The root file node list does not name its root object space.
    MissingRootObjectSpaceId,
    /// The root object space named by the root file node list does not exist.
    MissingRootObjectSpace,
    /// The root file node list holds a node that does not belong there.
    UnexpectedRootNode,
    /// A root object reference names a role that does not exist.
    InvalidRootRole { role: u32 },
    /// The end of the transaction log does not fit in 64 bits.
    TransactionLogOverflow,
    /// The transaction log ends inside the file header.
    TransactionLogUnderflow,
    /// A section entry of a table of contents is an absolute path.
    RelativePathRequired,
    /// A section entry of a table of contents is not valid UTF-8.
    NonUtf8Entry,
    /// A section entry of a table of contents holds a component other than a name or `.`.
    InvalidPathComponents,
    /// A section entry of a table of contents names nothing once sanitized.
    EmptyEntry,
    /// A file node list fragment does not start with the magic number of its header.
    InvalidFileNodeListMagic,
    /// The list of an object space manifest list reference does not start with its start node.
    ObjectSpaceListWithoutStart,
    /// The list of an object space manifest list reference holds a node other than a revision manifest list reference after its start node.
    UnexpectedObjectSpaceListNode,
    /// The list of an object space manifest list reference refers to no revision manifest list.
    ObjectSpaceListWithoutRevision,
    /// A file node that refers to a list of file nodes refers to something else.
    ExpectedNodeList,
    /// A string stored as UTF-16 is not valid UTF-16.
    InvalidUtf16,
    /// The reference of an object declared with file data has none of the known prefixes.
    InvalidFileDataReference,
    /// A notebook was asked of a file that is not a table of contents.
    NotATocFile { file: String },
    /// A file node refers to data elsewhere in the file, which a node read
    /// on its own cannot resolve.
    UnresolvedNodeData { node_type_id: u32 },
    /// A file node of an unknown type declares a size too small for its
    /// own header.
    InvalidFileNodeSize { node_type_id: u32, size: u32 },
    /// A file node's bytes do not add up to the size that it declares.
    FileNodeSizeMismatch { node_type_id: u32, declared: u32, actual: usize },
    /// A file node runs past the end of the fragment that holds it.
    FileNodeOverrunsFragment,
    /// A file node list fragment does not end with the expected footer.
    InvalidFileNodeListFooter { footer: u64 },
    /// An embedded object of rich text has a type that is not known.
    UnknownEmbeddedObjectType { object_type: u32 },
}

/// A parser error.
#[derive(Debug, PartialEq, Eq, Clone)]
pub struct Error {
    pub kind: ErrorKind,
}

/// The character of the decimal digit `d`.
pub open spec fn digit_char(d: nat) -> char {
    (48 + d) as char
}

/// The decimal notation of `n`, without leading zeros.
pub open spec fn decimal(n: nat) -> Seq<char>
    decreases n,
{
    if n < 10 {
        seq![digit_char(n)]
    } else {
        decimal(n / 10).push(digit_char(n % 10))
    }
}

/// The binary notation of `n`, without leading zeros.
pub open spec fn binary(n: nat) -> Seq<char>
    decreases n,
{
    if n < 2 {
        seq![digit_char(n)]
    } else {
        binary(n / 2).push(digit_char(n % 2))
    }
}

/// The lower-case hexadecimal notation of `n`, without leading zeros.
pub open spec fn hexadecimal(n: nat) -> Seq<char>
    decreases n,
{
    if n < 16 {
        seq![hex_digit_char(n)]
    } else {
        hexadecimal(n / 16).push(hex_digit_char(n % 16))
    }
}

/// The character of the hexadecimal digit `d`, in lower case.
pub open spec fn hex_digit_char(d: nat) -> char {
    if d < 10 {
        digit_char(d)
    } else {
        (87 + d) as char
    }
}

/// The text of the hexadecimal digit `d`.
pub fn digit_text(d: u8) -> (s: &'static str)
    requires
        d < 16,
    ensures
        s@ == seq![hex_digit_char(d as nat)],
{
    let digits = "0123456789abcdef";
    proof {
        reveal_strlit("0123456789abcdef");
    }
    digits.substring_char(d as usize, d as usize + 1)
}

/// The decimal notation of `n`.
pub fn decimal_text(n: u64) -> (s: String)
    ensures
        s@ == decimal(n as nat),
    decreases n,
{
    let digit = digit_text((n % 10) as u8);
    if n < 10 {
        String::from_str(digit)
    } else {
        decimal_text(n / 10).concat(digit)
    }
}

/// The binary notation of `n`.
pub fn binary_text(n: u64) -> (s: String)
    ensures
        s@ == binary(n as nat),
    decreases n,
{
    let digit = digit_text((n % 2) as u8);
    if n < 2 {
        String::from_str(digit)
    } else {
        binary_text(n / 2).concat(digit)
    }
}

/// The lower-case hexadecimal notation of `n`.
pub fn hexadecimal_text(n: u64) -> (s: String)
    ensures
        s@ == hexadecimal(n as nat),
    decreases n,
{
    let digit = digit_text((n % 16) as u8);
    if n < 16 {
        String::from_str(digit)
    } else {
        hexadecimal_text(n / 16).concat(digit)
    }
}

/// The human-readable description of an error of kind `kind`.
pub open spec fn error_message(kind: ErrorKind) -> Seq<char> {
    match kind {
        ErrorKind::UnexpectedEof => "unexpected end of input"@,
        ErrorKind::InvalidUuid => "invalid UUID"@,
        ErrorKind::InvalidExGuidTag { first_byte } => "unexpected ExGuid first byte: "@ + binary(
            first_byte as nat,
        ),
        ErrorKind::InvalidCompactU64Tag { first_byte } => "unexpected CompactU64 type: "@
            + decimal(first_byte as nat),
        ErrorKind::UnexpectedPropertyType { prop_type } => "unexpected property type: 0x"@
            + hexadecimal(prop_type as nat),
        ErrorKind::UnresolvedCompactId { guid_index } => "unable to resolve compact ID with index "@
            + decimal(guid_index as nat),
        ErrorKind::MissingDependencyMapping { index } => "GlobalIdTableEntry2FNDX references index "@
            + decimal(index as nat)
            + " that is not present in the dependency revision's global ID table"@,
        ErrorKind::CopyWithoutDependencyTable =>
            "GlobalIdTableEntry3FNDX requires a dependency revision's global ID table"@,
        ErrorKind::CopySourceOverflow { start, count } =>
            "GlobalIdTableEntry3FNDX source range overflows: start "@ + decimal(start as nat)
                + ", count "@ + decimal(count as nat),
        ErrorKind::CopyDestinationOutOfRange { start, count } =>
            "GlobalIdTableEntry3FNDX destination range is outside the 24-bit index space: start "@
                + decimal(start as nat) + ", count "@ + decimal(count as nat),
        ErrorKind::MissingCopySource { index } =>
            "GlobalIdTableEntry3FNDX references source index "@ + decimal(index as nat)
                + " that is not present in the dependency revision's global ID table"@,
        ErrorKind::UnexpectedGlobalIdTableNode =>
            "unexpected node encountered while parsing global ID table"@,
        ErrorKind::InvalidRevisionStart => "invalid start node for revision"@,
        ErrorKind::UndeclaredDependency => "revision depends on an undeclared revision"@,
        ErrorKind::MissingRootIdTable => "unable to resolve RootObjectReference2FNDX ID: no global ID table found"@,
        ErrorKind::UnexpectedRevisionNode => "unexpected node while parsing revision"@,
        ErrorKind::UndeclaredObjectRevision => "object revision has no declaration in its dependency chain"@,
        ErrorKind::UnexpectedRevisionManifestListNode => "unexpected node encountered in RevisionManifestList"@,
        ErrorKind::DuplicateRevision => "duplicate revision identifier"@,
        ErrorKind::NoActiveRevision => "revision manifest list has no active revision in the default context"@,
        ErrorKind::UndeclaredRevisionInChain => "revision chain points to undeclared revision"@,
        ErrorKind::UndeclaredLabelTarget => "revision role declaration points to an undeclared revision"@,
        ErrorKind::MissingObjectGroupStart => "object group lists must start with an ObjectGroupStartFND node"@,
        ErrorKind::MissingObjectGroupIdTable => "global ID table not found in ObjectGroupList"@,
        ErrorKind::UnexpectedObjectGroupNode => "unexpected node in ObjectGroupList"@,
        ErrorKind::UnexpectedFileDataStoreItem => "unexpected item in file list; expected FileDataStoreObjectReferenceFND"@,
        ErrorKind::FileNotFound => "file not found in the file data store"@,
        ErrorKind::DuplicateFileDataStore => "only one file_data_store can exist in the root node list"@,
        ErrorKind::ExternalFileUnsupported => "not supported: loading an attachment from a file"@,
        ErrorKind::UnresolvedFileReference => "failed to resolve file reference"@,
        ErrorKind::FileDataStoreNotLoaded => "file_data reference has not been loaded"@,
        ErrorKind::MissingRevisionManifestList => "ObjectSpace should point to a RevisionManifestList"@,
        ErrorKind::MissingRootObjectSpaceId => "root file node list did not contain a node with the root ID"@,
        ErrorKind::MissingRootObjectSpace => "should have a default object space"@,
        ErrorKind::UnexpectedRootNode => "unexpected entry in the root file node list"@,
        ErrorKind::InvalidRootRole { role } => "invalid root role: "@ + decimal(role as nat),
        ErrorKind::TransactionLogOverflow => "transaction log offset overflow"@,
        ErrorKind::TransactionLogUnderflow => "transaction log offset underflow"@,
        ErrorKind::RelativePathRequired => "section entry must be a relative path"@,
        ErrorKind::NonUtf8Entry => "section entry contains non-UTF-8 bytes"@,
        ErrorKind::InvalidPathComponents => "section entry contains invalid path components"@,
        ErrorKind::EmptyEntry => "section entry is empty"@,
        ErrorKind::InvalidFileNodeListMagic => "failed to validate: magic == 0xA4567AB1F5F7F4C4"@,
        ErrorKind::ObjectSpaceListWithoutStart => "ObjectSpaceManifestListReferenceFND's list must start with a ObjectSpaceManifestListStartFND"@,
        ErrorKind::UnexpectedObjectSpaceListNode => "all items following the first in an ObjectSpaceManifestListReferenceFND must be RevisionManifestListReferenceFNDs"@,
        ErrorKind::ObjectSpaceListWithoutRevision => "ObjectSpaceManifestListReferenceFND must point to a list with at least one revision"@,
        ErrorKind::ExpectedNodeList => "expected a reference to a list of file nodes"@,
        ErrorKind::InvalidUtf16 => "invalid UTF-16 string"@,
        ErrorKind::InvalidFileDataReference => "failed to validate: the file data reference must start with <file>, <ifndf> or <invfdo>"@,
        ErrorKind::NotATocFile { file } => "the file is not a notebook table of contents: "@ + file@,
        ErrorKind::UnresolvedNodeData { .. } => "the file node refers to data that cannot be resolved here"@,
        ErrorKind::InvalidFileNodeSize { .. } => "the size of an unknown file node is smaller than its header"@,
        ErrorKind::FileNodeOverrunsFragment => "a file node runs past the end of its fragment"@,
        ErrorKind::InvalidFileNodeListFooter { footer } => "invalid footer: 0x"@ + hexadecimal(
            footer as nat,
        ),
        ErrorKind::UnknownEmbeddedObjectType { object_type } => "unknown embedded object type: "@
            + hexadecimal(object_type as nat),
        ErrorKind::FileNodeSizeMismatch { declared, actual, .. } =>
            "the size specified for this structure is incorrect: was "@ + decimal(actual as nat)
            + ", expected "@ + decimal(declared as nat),
    }
}

impl Error {
    /// An error of the given kind.
    pub fn new(kind: ErrorKind) -> (e: Error)
        ensures
            e.kind == kind,
    {
        Error { kind }
    }

    /// The human-readable description of this error.
    pub fn to_string(&self) -> (s: String)
        ensures
            s@ == error_message(self.kind),
    {
        match self.kind {
            ErrorKind::UnexpectedEof => String::from_str("unexpected end of input"),
            ErrorKind::InvalidUuid => String::from_str("invalid UUID"),
            ErrorKind::InvalidExGuidTag { first_byte } => {
                String::from_str("unexpected ExGuid first byte: ").concat(
                    binary_text(first_byte as u64).as_str(),
                )
            },
            ErrorKind::InvalidCompactU64Tag { first_byte } => {
                String::from_str("unexpected CompactU64 type: ").concat(
                    decimal_text(first_byte as u64).as_str(),
                )
            },
            ErrorKind::UnexpectedPropertyType { prop_type } => {
                String::from_str("unexpected property type: 0x").concat(
                    hexadecimal_text(prop_type as u64).as_str(),
                )
            },
            ErrorKind::UnresolvedCompactId { guid_index } => {
                String::from_str("unable to resolve compact ID with index ").concat(
                    decimal_text(guid_index as u64).as_str(),
                )
            },
            ErrorKind::MissingDependencyMapping { index } => {
                String::from_str("GlobalIdTableEntry2FNDX references index ").concat(
                    decimal_text(index as u64).as_str(),
                ).concat(" that is not present in the dependency revision's global ID table")
            },
            ErrorKind::CopyWithoutDependencyTable => String::from_str(
                "GlobalIdTableEntry3FNDX requires a dependency revision's global ID table",
            ),
            ErrorKind::CopySourceOverflow { start, count } => {
                String::from_str("GlobalIdTableEntry3FNDX source range overflows: start ").concat(
                    decimal_text(start as u64).as_str(),
                ).concat(", count ").concat(decimal_text(count as u64).as_str())
            },
            ErrorKind::CopyDestinationOutOfRange { start, count } => {
                String::from_str(
                    "GlobalIdTableEntry3FNDX destination range is outside the 24-bit index space: start ",
                ).concat(decimal_text(start as u64).as_str()).concat(", count ").concat(
                    decimal_text(count as u64).as_str(),
                )
            },
            ErrorKind::MissingCopySource { index } => {
                String::from_str("GlobalIdTableEntry3FNDX references source index ").concat(
                    decimal_text(index as u64).as_str(),
                ).concat(" that is not present in the dependency revision's global ID table")
            },
            ErrorKind::UnexpectedGlobalIdTableNode => String::from_str(
                "unexpected node encountered while parsing global ID table",
            ),
            ErrorKind::InvalidRevisionStart => String::from_str("invalid start node for revision"),
            ErrorKind::UndeclaredDependency => String::from_str("revision depends on an undeclared revision"),
            ErrorKind::MissingRootIdTable => String::from_str("unable to resolve RootObjectReference2FNDX ID: no global ID table found"),
            ErrorKind::UnexpectedRevisionNode => String::from_str("unexpected node while parsing revision"),
            ErrorKind::UndeclaredObjectRevision => String::from_str("object revision has no declaration in its dependency chain"),
            ErrorKind::UnexpectedRevisionManifestListNode => String::from_str("unexpected node encountered in RevisionManifestList"),
            ErrorKind::DuplicateRevision => String::from_str("duplicate revision identifier"),
            ErrorKind::NoActiveRevision => String::from_str("revision manifest list has no active revision in the default context"),
            ErrorKind::UndeclaredRevisionInChain => String::from_str("revision chain points to undeclared revision"),
            ErrorKind::UndeclaredLabelTarget => String::from_str("revision role declaration points to an undeclared revision"),
            ErrorKind::MissingObjectGroupStart => String::from_str("object group lists must start with an ObjectGroupStartFND node"),
            ErrorKind::MissingObjectGroupIdTable => String::from_str("global ID table not found in ObjectGroupList"),
            ErrorKind::UnexpectedObjectGroupNode => String::from_str("unexpected node in ObjectGroupList"),
            ErrorKind::UnexpectedFileDataStoreItem => String::from_str("unexpected item in file list; expected FileDataStoreObjectReferenceFND"),
            ErrorKind::FileNotFound => String::from_str("file not found in the file data store"),
            ErrorKind::DuplicateFileDataStore => String::from_str("only one file_data_store can exist in the root node list"),
            ErrorKind::ExternalFileUnsupported => String::from_str("not supported: loading an attachment from a file"),
            ErrorKind::UnresolvedFileReference => String::from_str("failed to resolve file reference"),
            ErrorKind::FileDataStoreNotLoaded => String::from_str("file_data reference has not been loaded"),
            ErrorKind::MissingRevisionManifestList => String::from_str("ObjectSpace should point to a RevisionManifestList"),
            ErrorKind::MissingRootObjectSpaceId => String::from_str("root file node list did not contain a node with the root ID"),
            ErrorKind::MissingRootObjectSpace => String::from_str("should have a default object space"),
            ErrorKind::UnexpectedRootNode => String::from_str("unexpected entry in the root file node list"),
            ErrorKind::InvalidRootRole { role } => String::from_str("invalid root role: ").concat(
                decimal_text(role as u64).as_str(),
            ),
            ErrorKind::TransactionLogOverflow => String::from_str("transaction log offset overflow"),
            ErrorKind::TransactionLogUnderflow => String::from_str("transaction log offset underflow"),
            ErrorKind::RelativePathRequired => String::from_str("section entry must be a relative path"),
            ErrorKind::NonUtf8Entry => String::from_str("section entry contains non-UTF-8 bytes"),
            ErrorKind::InvalidPathComponents => String::from_str("section entry contains invalid path components"),
            ErrorKind::EmptyEntry => String::from_str("section entry is empty"),
            ErrorKind::InvalidFileNodeListMagic => String::from_str("failed to validate: magic == 0xA4567AB1F5F7F4C4"),
            ErrorKind::ObjectSpaceListWithoutStart => String::from_str("ObjectSpaceManifestListReferenceFND's list must start with a ObjectSpaceManifestListStartFND"),
            ErrorKind::UnexpectedObjectSpaceListNode => String::from_str("all items following the first in an ObjectSpaceManifestListReferenceFND must be RevisionManifestListReferenceFNDs"),
            ErrorKind::ObjectSpaceListWithoutRevision => String::from_str("ObjectSpaceManifestListReferenceFND must point to a list with at least one revision"),
            ErrorKind::ExpectedNodeList => String::from_str("expected a reference to a list of file nodes"),
            ErrorKind::InvalidUtf16 => String::from_str("invalid UTF-16 string"),
            ErrorKind::InvalidFileDataReference => String::from_str("failed to validate: the file data reference must start with <file>, <ifndf> or <invfdo>"),
            ErrorKind::NotATocFile { ref file } => String::from_str(
                "the file is not a notebook table of contents: ",
            ).concat(file.as_str()),
            ErrorKind::UnresolvedNodeData { .. } => String::from_str("the file node refers to data that cannot be resolved here"),
            ErrorKind::InvalidFileNodeSize { .. } => String::from_str("the size of an unknown file node is smaller than its header"),
            ErrorKind::FileNodeOverrunsFragment => String::from_str("a file node runs past the end of its fragment"),
            ErrorKind::InvalidFileNodeListFooter { footer } => String::from_str(
                "invalid footer: 0x",
            ).concat(hexadecimal_text(footer).as_str()),
            ErrorKind::UnknownEmbeddedObjectType { object_type } => {
                String::from_str("unknown embedded object type: ").concat(
                    hexadecimal_text(object_type as u64).as_str(),
                )
            },
            ErrorKind::FileNodeSizeMismatch { declared, actual, .. } => {
                String::from_str("the size specified for this structure is incorrect: was ").concat(
                    decimal_text(actual as u64).as_str(),
                ).concat(", expected ").concat(decimal_text(declared as u64).as_str())
            },
        }
    }
}

/// The result of a fallible parsing operation.
pub type Result<T> = core::result::Result<T, Error>;

} // verus!
