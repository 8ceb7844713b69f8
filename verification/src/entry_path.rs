use crate::errors::{Error, ErrorKind, Result};
use vstd::prelude::*;
use typed_path::{PathType, TypedComponent, TypedPath, UnixComponent, WindowsComponent};
use vstd::utf8::{decode_utf8, valid_utf8};

verus! {

/// A component of a section entry path, by what it means here.
#[derive(Debug)]
pub enum EntryComponent {
    /// A file or directory name, as bytes.
    Normal(Vec<u8>),
    /// `.`
    CurDir,
    /// Anything else: a prefix, a root, `..`.
    Other,
}

/// The content of an [`EntryComponent`].
pub enum EntryComponentModel {
    Normal(Seq<u8>),
    CurDir,
    Other,
}

impl View for EntryComponent {
    type V = EntryComponentModel;

    open spec fn view(&self) -> EntryComponentModel {
        match self {
            EntryComponent::Normal(b) => EntryComponentModel::Normal(b@),
            EntryComponent::CurDir => EntryComponentModel::CurDir,
            EntryComponent::Other => EntryComponentModel::Other,
        }
    }
}

/// Whether `typed_path` finds the Windows path `s` absolute.
pub uninterp spec fn windows_path_is_absolute(s: Seq<char>) -> bool;

/// The components that `typed_path` finds in the Windows path `s`.
pub uninterp spec fn windows_path_components(s: Seq<char>) -> Seq<EntryComponentModel>;

/// Whether `sanitize_filename` takes `c` out of a name as illegal:
/// `/ ? < > \ : * | "`.
pub open spec fn is_illegal_name_char(c: char) -> bool {
    c == '/' || c == '?' || c == '<' || c == '>' || c == '\\' || c == ':' || c == '*' || c == '|'
        || c == '"'
}

/// Whether `sanitize_filename` takes `c` out of a name as a control
/// character: U+0000 to U+001F and U+0080 to U+009F.
pub open spec fn is_control_name_char(c: char) -> bool {
    (c as u32) <= 0x1f || (0x80 <= (c as u32) && (c as u32) <= 0x9f)
}

/// The number of bytes that UTF-8 takes for `c`.
pub open spec fn utf8_width(c: char) -> nat {
    if (c as u32) < 0x80 {
        1
    } else if (c as u32) < 0x800 {
        2
    } else if (c as u32) < 0x10000 {
        3
    } else {
        4
    }
}

/// The number of bytes that UTF-8 takes for `s`.
pub open spec fn utf8_length(s: Seq<char>) -> nat
    decreases s.len(),
{
    if s.len() == 0 {
        0
    } else {
        utf8_length(s.drop_last()) + utf8_width(s.last())
    }
}

/// Whether `s` is made of one or more dots only.
pub open spec fn is_all_dots(s: Seq<char>) -> bool {
    s.len() > 0 && forall|i: int| 0 <= i < s.len() ==> s[i] == '.'
}

/// The longest beginning of `s` that UTF-8 encodes in at most `limit`
/// bytes.
pub open spec fn utf8_cut(s: Seq<char>, limit: nat) -> Seq<char>
    decreases s.len(),
{
    if utf8_length(s) <= limit || s.len() == 0 {
        s
    } else {
        utf8_cut(s.drop_last(), limit)
    }
}

/// The characters of `s` that `sanitize_filename` keeps.
pub open spec fn kept_name_chars(s: Seq<char>) -> Seq<char> {
    s.filter(|c: char| !is_illegal_name_char(c) && !is_control_name_char(c))
}

/// What `sanitize_filename`, with the Windows-specific rules off and the
/// other options at their defaults, makes of the file name `s`: illegal
/// and control characters are dropped, a name of dots only becomes empty,
/// and the result is cut to 255 bytes at a character boundary.
pub open spec fn sanitized_file_name(s: Seq<char>) -> Seq<char> {
    let kept = kept_name_chars(s);
    let named = if is_all_dots(kept) {
        Seq::<char>::empty()
    } else {
        kept
    };
    utf8_cut(named, 255)
}

/// The bytes of the Windows path `path` with `name` pushed onto it, as
/// `typed_path` builds it.
pub uninterp spec fn windows_path_pushed(path: Seq<u8>, name: Seq<char>) -> Seq<u8>;

/// `typed_path::TypedPath::new(entry, PathType::Windows).is_absolute()`.
#[verifier::external_body]
fn windows_is_absolute(entry: &str) -> (b: bool)
    ensures
        b == windows_path_is_absolute(entry@),
{
    TypedPath::new(entry, PathType::Windows).is_absolute()
}

/// `typed_path::TypedPath::new(entry, PathType::Windows).components()`,
/// each component told apart as a name, `.` or something else.
#[verifier::external_body]
fn windows_components(entry: &str) -> (c: Vec<EntryComponent>)
    ensures
        c@.map_values(|x: EntryComponent| x@) == windows_path_components(entry@),
{
    TypedPath::new(entry, PathType::Windows).components().map(|c| match c {
        TypedComponent::Windows(WindowsComponent::Normal(n)) => EntryComponent::Normal(n.to_vec()),
        TypedComponent::Unix(UnixComponent::Normal(n)) => EntryComponent::Normal(n.to_vec()),
        TypedComponent::Windows(WindowsComponent::CurDir) => EntryComponent::CurDir,
        TypedComponent::Unix(UnixComponent::CurDir) => EntryComponent::CurDir,
        _ => EntryComponent::Other,
    }).collect()
}

/// `std::str::from_utf8`: the text that the bytes encode, if they are
/// valid UTF-8.
#[verifier::external_body]
fn str_from_utf8(bytes: &[u8]) -> (r: Option<&str>)
    ensures
        match r {
            Some(s) => valid_utf8(bytes@) && s@ == decode_utf8(bytes@),
            None => !valid_utf8(bytes@),
        },
{
    std::str::from_utf8(bytes).ok()
}

/// `sanitize_filename::sanitize_with_options` with the Windows-specific
/// rules off and the other options at their defaults: its three regular
/// expressions remove illegal characters, remove control characters and
/// empty a name of dots only, then the name is cut to 255 bytes.
#[verifier::external_body]
fn sanitize_name(name: &str) -> (s: String)
    ensures
        s@ == sanitized_file_name(name@),
{
    sanitize_filename::sanitize_with_options(
        name,
        sanitize_filename::Options { windows: false, ..Default::default() },
    )
}

/// `typed_path::TypedPathBuf::push` of `name` onto the Windows path
/// `path`, giving the bytes of the result.
#[verifier::external_body]
fn windows_push(path: &[u8], name: &str) -> (r: Vec<u8>)
    ensures
        r@ == windows_path_pushed(path@, name@),
{
    let mut buf = TypedPath::new(path, PathType::Windows).to_path_buf();
    buf.push(name);
    buf.as_bytes().to_vec()
}

/// The relative path that components `i..` of a section entry give when
/// added to `path`: names are sanitized and kept, `.` is skipped, and
/// anything else is refused.
pub open spec fn entry_components_spec(
    cs: Seq<EntryComponentModel>,
    i: int,
    path: Seq<u8>,
) -> Result<Seq<u8>>
    decreases cs.len() - i,
{
    if i < 0 || i >= cs.len() {
        Ok(path)
    } else {
        match cs[i] {
            EntryComponentModel::Normal(bytes) => if !valid_utf8(bytes) {
                Err(Error { kind: ErrorKind::NonUtf8Entry })
            } else {
                entry_components_spec(
                    cs,
                    i + 1,
                    windows_path_pushed(path, sanitized_file_name(decode_utf8(bytes))),
                )
            },
            EntryComponentModel::CurDir => entry_components_spec(cs, i + 1, path),
            EntryComponentModel::Other => Err(Error { kind: ErrorKind::InvalidPathComponents }),
        }
    }
}

/// The sanitized relative Windows path that the section entry `entry` of a
/// table of contents names.
pub open spec fn sanitize_entry_spec(entry: Seq<char>) -> Result<Seq<u8>> {
    if windows_path_is_absolute(entry) {
        Err(Error { kind: ErrorKind::RelativePathRequired })
    } else {
        match entry_components_spec(windows_path_components(entry), 0, Seq::empty()) {
            Err(e) => Err(e),
            Ok(path) => if path.len() == 0 {
                Err(Error { kind: ErrorKind::EmptyEntry })
            } else {
                Ok(path)
            },
        }
    }
}

/// Turns the section entry `entry` of a table of contents into a relative
/// path, as the bytes of a Windows path.
///
/// The entry comes from the file and may hold anything: it is read as a
/// Windows path (where `/` and `\` both separate), must be relative, may
/// hold only names and `.`, and each name is stripped of path-traversal and
/// control characters.
pub fn sanitize_entry_path(entry: &str) -> (r: Result<Vec<u8>>)
    ensures
        match sanitize_entry_spec(entry@) {
            Ok(path) => r matches Ok(p) && p@ == path,
            Err(e) => r == Err::<Vec<u8>, Error>(e),
        },
{
    if windows_is_absolute(entry) {
        return Err(Error::new(ErrorKind::RelativePathRequired));
    }
    let components = windows_components(entry);
    let ghost cs = components@.map_values(|x: EntryComponent| x@);
    let mut sanitized: Vec<u8> = Vec::new();
    let mut i: usize = 0;
    while i < components.len()
        invariant
            cs == components@.map_values(|x: EntryComponent| x@),
            cs == windows_path_components(entry@),
            !windows_path_is_absolute(entry@),
            i <= components@.len(),
            entry_components_spec(cs, 0, Seq::empty()) == entry_components_spec(
                cs,
                i as int,
                sanitized@,
            ),
        decreases components@.len() - i,
    {
        match &components[i] {
            EntryComponent::Normal(bytes) => {
                let name = match str_from_utf8(bytes.as_slice()) {
                    Some(name) => name,
                    None => {
                        return Err(Error::new(ErrorKind::NonUtf8Entry));
                    },
                };
                let clean = sanitize_name(name);
                sanitized = windows_push(sanitized.as_slice(), clean.as_str());
            },
            EntryComponent::CurDir => {},
            EntryComponent::Other => {
                return Err(Error::new(ErrorKind::InvalidPathComponents));
            },
        }
        i = i + 1;
    }
    if sanitized.len() == 0 {
        return Err(Error::new(ErrorKind::EmptyEntry));
    }
    Ok(sanitized)
}

proof fn lemma_utf8_length_bound(s: Seq<char>)
    ensures
        utf8_length(s) <= 4 * s.len(),
    decreases s.len(),
{
    if s.len() > 0 {
        lemma_utf8_length_bound(s.drop_last());
    }
}

proof fn lemma_cut_keeps_a_beginning(s: Seq<char>, limit: nat)
    ensures
        utf8_cut(s, limit).len() <= s.len(),
        forall|i: int| 0 <= i < utf8_cut(s, limit).len() ==> #[trigger] utf8_cut(s, limit)[i] == s[i],
        utf8_length(s) > limit ==> utf8_length(utf8_cut(s, limit)) + 4 > limit,
    decreases s.len(),
{
    if utf8_length(s) <= limit || s.len() == 0 {
    } else {
        lemma_cut_keeps_a_beginning(s.drop_last(), limit);
    }
}

/// A sanitized file name holds no path separator, drive colon, other
/// illegal character or control character, and it is never `.` or `..`:
/// a name of dots only is emptied, and a cut one keeps more than 60
/// characters.
pub proof fn law_sanitized_names_hold_no_separator(s: Seq<char>)
    ensures
        forall|i: int|
            0 <= i < sanitized_file_name(s).len() ==> !is_illegal_name_char(
                #[trigger] sanitized_file_name(s)[i],
            ) && !is_control_name_char(sanitized_file_name(s)[i]),
        sanitized_file_name(s).len() <= 2 ==> !is_all_dots(sanitized_file_name(s)),
{
    broadcast use vstd::seq_lib::group_filter_ensures;

    let kept = kept_name_chars(s);
    let named = if is_all_dots(kept) {
        Seq::<char>::empty()
    } else {
        kept
    };
    let r = sanitized_file_name(s);
    lemma_cut_keeps_a_beginning(named, 255);
    lemma_utf8_length_bound(r);
    assert forall|i: int| 0 <= i < r.len() implies !is_illegal_name_char(#[trigger] r[i])
        && !is_control_name_char(r[i]) by {
        assert(r[i] == named[i]);
        assert(named[i] == kept[i]);
    }
    if r.len() <= 2 && utf8_length(named) > 255 {
        assert(false);
    }
    if r.len() <= 2 && utf8_length(named) <= 255 {
        assert(r == named);
    }
}

} // verus!
