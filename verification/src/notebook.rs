use crate::errors::{digit_text, error_message, hex_digit_char, Error, ErrorKind};
use crate::guid::Guid;
use crate::onestore::{FileBlob, FileBlobModel, FileDataStatus, OneStoreType};
use crate::text::{ends_with, has_suffix};
use vstd::prelude::*;
use vstd::string::*;

verus! {

/// A color with an alpha channel.
#[derive(Debug, PartialEq, Eq, Structural, Clone, Copy)]
pub struct Color {
    pub alpha: u8,
    pub r: u8,
    pub g: u8,
    pub b: u8,
}

/// A non-fatal issue met while parsing.
#[derive(Debug)]
pub struct Warning {
    /// The page that the issue concerns, if any.
    pub page: Option<String>,
    pub message: String,
}

/// The non-fatal issues met while parsing, in the order met.
#[derive(Debug)]
pub struct Report {
    warnings: Vec<Warning>,
}

impl Report {
    /// The messages of the warnings, in order.
    pub closed spec fn messages(&self) -> Seq<Seq<char>> {
        self.warnings@.map_values(|w: Warning| w.message@)
    }

    /// A report without warnings.
    pub fn new() -> (r: Report)
        ensures
            r.messages().len() == 0,
    {
        Report { warnings: Vec::new() }
    }

    /// Adds a warning after the earlier ones.
    pub fn push_warning(&mut self, warning: Warning)
        ensures
            final(self).messages() == old(self).messages().push(warning.message@),
    {
        let ghost m = warning.message@;
        self.warnings.push(warning);
        assert(self.messages() =~= old(self).messages().push(m));
    }

    /// The warnings, in the order met.
    pub fn warnings(&self) -> (w: &[Warning])
        ensures
            w@.map_values(|x: Warning| x.message@) == self.messages(),
    {
        self.warnings.as_slice()
    }
}

/// The identity stored in a OneNote file header.
///
/// It stays the same when the file is renamed or moved, so it can tie
/// application state to a notebook, section or section group.
#[derive(Debug, PartialEq, Eq, Structural, Clone, Copy, Hash)]
pub struct FileIdentity(pub Guid);

/// The hexadecimal digit of `v` at position `i`, counting from the most
/// significant of its 32 digits.
pub open spec fn nibble(v: u128, i: int) -> u128 {
    (v >> ((124 - 4 * i) as u32)) & 0xF
}

/// The digits of `v` from position `from` up to `to`, in lower case.
pub open spec fn nibble_text(v: u128, from: int, to: int) -> Seq<char> {
    Seq::new((to - from) as nat, |k: int| hex_digit_char(nibble(v, from + k) as nat))
}

/// The hyphenated notation of the GUID value `v`: its 32 lower-case
/// hexadecimal digits in groups of 8, 4, 4, 4 and 12.
pub open spec fn hyphenated(v: u128) -> Seq<char> {
    nibble_text(v, 0, 8) + "-"@ + nibble_text(v, 8, 12) + "-"@ + nibble_text(v, 12, 16) + "-"@
        + nibble_text(v, 16, 20) + "-"@ + nibble_text(v, 20, 32)
}

/// The digits of `v` from position `from` up to `to`.
fn nibble_string(v: u128, from: usize, to: usize) -> (s: String)
    requires
        from <= to <= 32,
    ensures
        s@ == nibble_text(v, from as int, to as int),
{
    let mut s = String::new();
    let mut k: usize = from;
    proof {
        assert(s@ =~= nibble_text(v, from as int, from as int));
    }
    while k < to
        invariant
            from <= k <= to <= 32,
            s@ == nibble_text(v, from as int, k as int),
        decreases to - k,
    {
        let shift: u32 = (124 - 4 * k) as u32;
        let d = (v >> shift) & 0xF;
        assert(((v >> shift) & 0xF) < 16) by (bit_vector);
        s = s.concat(digit_text(d as u8));
        proof {
            assert(s@ =~= nibble_text(v, from as int, k + 1));
        }
        k += 1;
    }
    s
}

impl FileIdentity {
    /// The identity with the given GUID.
    pub fn new(value: Guid) -> (f: FileIdentity)
        ensures
            f.0 == value,
    {
        FileIdentity(value)
    }

    /// The identity in hyphenated notation, such as
    /// `1a5a319c-c26b-41aa-b9c5-9bd8c44e07d4`.
    pub fn to_string(&self) -> (s: String)
        ensures
            s@ == hyphenated(self.0.value),
    {
        let v = self.0.value;
        proof {
            reveal_strlit("-");
        }
        nibble_string(v, 0, 8).concat("-").concat(nibble_string(v, 8, 12).as_str()).concat(
            "-",
        ).concat(nibble_string(v, 12, 16).as_str()).concat("-").concat(
            nibble_string(v, 16, 20).as_str(),
        ).concat("-").concat(nibble_string(v, 20, 32).as_str())
    }
}

/// A stored picture associated with a OneNote object, such as the
/// browser-compatible fallback of an image or the icon of an embedded file.
#[derive(Debug)]
pub struct Picture {
    pub data: FileBlob,
    pub extension: Option<String>,
}

impl Picture {
    /// A picture with the given data and extension.
    pub fn new(data: FileBlob, extension: Option<String>) -> (p: Picture)
        ensures
            p.data@ == data@,
            p.extension == extension,
    {
        Picture { data, extension }
    }

    /// The picture's bytes.
    pub fn read(&self) -> (bytes: Vec<u8>)
        ensures
            bytes@ == self.data@.content,
    {
        self.data.read()
    }

    /// The size of the picture in bytes.
    pub fn size(&self) -> (n: u64)
        ensures
            n == self.data@.content.len(),
    {
        self.data.size()
    }

    /// The availability of the picture's data.
    pub fn data_status(&self) -> (s: FileDataStatus)
        ensures
            s == self.data@.status,
    {
        self.data.status()
    }

    /// The picture's file extension, when stored.
    pub fn extension(&self) -> (e: Option<&str>)
        ensures
            match self.extension {
                Some(x) => e matches Some(s) && s@ == x@,
                None => e is None,
            },
    {
        match &self.extension {
            Some(x) => Some(x.as_str()),
            None => None,
        }
    }
}

/// A OneNote section, with the page series of type `P` that it holds.
///
/// See [MS-ONE] 1.3.1 and 2.2.17.
#[derive(Debug)]
pub struct Section<P> {
    pub file_identity: FileIdentity,
    pub display_name: String,
    pub page_series: Vec<P>,
    pub color: Option<Color>,
    pub report: Report,
}

impl<P> Section<P> {
    /// The identity stored in the section file.
    pub fn file_identity(&self) -> (f: FileIdentity)
        ensures
            f == self.file_identity,
    {
        self.file_identity
    }

    /// The section name.
    pub fn display_name(&self) -> (s: &str)
        ensures
            s@ == self.display_name@,
    {
        self.display_name.as_str()
    }

    /// The page series of the section.
    pub fn page_series(&self) -> (s: &[P])
        ensures
            s@ == self.page_series@,
    {
        self.page_series.as_slice()
    }

    /// The color of the section.
    pub fn color(&self) -> (c: Option<Color>)
        ensures
            c == self.color,
    {
        self.color
    }

    /// The non-fatal warnings met while parsing the section.
    pub fn report(&self) -> (r: &Report)
        ensures
            *r == self.report,
    {
        &self.report
    }
}

/// A group of sections.
#[derive(Debug)]
pub struct SectionGroup<P> {
    pub file_identity: FileIdentity,
    pub display_name: String,
    pub entries: Vec<SectionEntry<P>>,
}

/// An entry in a list of sections.
#[derive(Debug)]
pub enum SectionEntry<P> {
    Section(Section<P>),
    SectionGroup(SectionGroup<P>),
}

impl<P> SectionGroup<P> {
    /// The identity stored in the group's table-of-contents file.
    pub fn file_identity(&self) -> (f: FileIdentity)
        ensures
            f == self.file_identity,
    {
        self.file_identity
    }

    /// The group name.
    pub fn display_name(&self) -> (s: &str)
        ensures
            s@ == self.display_name@,
    {
        self.display_name.as_str()
    }

    /// The sections and groups of the group.
    pub fn entries(&self) -> (e: &[SectionEntry<P>])
        ensures
            e@ == self.entries@,
    {
        self.entries.as_slice()
    }
}

/// A OneNote notebook.
#[derive(Debug)]
pub struct Notebook<P> {
    pub entries: Vec<SectionEntry<P>>,
    pub color: Option<Color>,
    pub report: Report,
}

impl<P> Notebook<P> {
    /// The sections and groups of the notebook.
    pub fn entries(&self) -> (e: &[SectionEntry<P>])
        ensures
            e@ == self.entries@,
    {
        self.entries.as_slice()
    }

    /// The color of the notebook.
    pub fn color(&self) -> (c: Option<Color>)
        ensures
            c == self.color,
    {
        self.color
    }

    /// The notebook-level warnings: one per section that failed to parse
    /// and was left out of the entries.
    pub fn report(&self) -> (r: &Report)
        ensures
            *r == self.report,
    {
        &self.report
    }
}

/// The warning for a section at `path` that failed to parse with `err`.
pub open spec fn import_failure_message(path: Seq<char>, err: Error) -> Seq<char> {
    "failed to import section "@ + path + ": "@ + error_message(err.kind)
}

/// The entries that parsed, in order.
pub open spec fn parsed_entries<P>(outcomes: Seq<(String, Result<SectionEntry<P>, Error>)>) -> Seq<
    SectionEntry<P>,
>
    decreases outcomes.len(),
{
    if outcomes.len() == 0 {
        Seq::empty()
    } else {
        let rest = parsed_entries(outcomes.drop_last());
        match outcomes.last().1 {
            Ok(entry) => rest.push(entry),
            Err(_) => rest,
        }
    }
}

/// The warnings for the entries that failed, in order.
pub open spec fn failure_messages<P>(outcomes: Seq<(String, Result<SectionEntry<P>, Error>)>) -> Seq<
    Seq<char>,
>
    decreases outcomes.len(),
{
    if outcomes.len() == 0 {
        Seq::empty()
    } else {
        let rest = failure_messages(outcomes.drop_last());
        match outcomes.last().1 {
            Ok(_) => rest,
            Err(e) => rest.push(import_failure_message(outcomes.last().0@, e)),
        }
    }
}

impl<P> Notebook<P> {
    /// The notebook made of the outcomes of parsing its entries, each with
    /// the path it was read from: an entry that parsed is kept, and one
    /// that failed is left out with a warning that names its path and the
    /// error, so that one bad section does not take down the notebook.
    pub fn from_outcomes(
        outcomes: Vec<(String, Result<SectionEntry<P>, Error>)>,
        color: Option<Color>,
    ) -> (n: Notebook<P>)
        ensures
            n.entries@ == parsed_entries(outcomes@),
            n.report.messages() == failure_messages(outcomes@),
            n.color == color,
    {
        let ghost all = outcomes@;
        let mut rest = outcomes;
        let mut entries: Vec<SectionEntry<P>> = Vec::new();
        let mut report = Report::new();
        let ghost mut k: int = 0;
        proof {
            assert(all.take(0) =~= Seq::<(String, Result<SectionEntry<P>, Error>)>::empty());
            assert(report.messages() =~= Seq::<Seq<char>>::empty());
            assert(rest@ =~= all.skip(0));
        }
        while rest.len() > 0
            invariant
                0 <= k <= all.len(),
                rest@ == all.skip(k),
                entries@ == parsed_entries(all.take(k)),
                report.messages() == failure_messages(all.take(k)),
            decreases rest.len(),
        {
            let ghost before = rest@;
            let (path, outcome) = rest.remove(0);
            proof {
                assert(all.take(k + 1).drop_last() =~= all.take(k));
                assert(all[k] == before[0]);
                assert(rest@ =~= all.skip(k + 1));
            }
            match outcome {
                Ok(entry) => {
                    entries.push(entry);
                },
                Err(err) => {
                    let message = String::from_str("failed to import section ").concat(
                        path.as_str(),
                    ).concat(": ").concat(err.to_string().as_str());
                    proof {
                        reveal_strlit("failed to import section ");
                        reveal_strlit(": ");
                    }
                    report.push_warning(Warning { page: None, message });
                },
            }
            proof {
                k = k + 1;
            }
        }
        proof {
            assert(all.take(k) =~= all);
        }
        Notebook { entries, color, report }
    }
}

/// Each entry of a notebook either parsed or left a warning, never both:
/// the entries and the warnings together account for every outcome.
pub proof fn law_every_outcome_is_kept_or_reported<P>(
    outcomes: Seq<(String, Result<SectionEntry<P>, Error>)>,
)
    ensures
        parsed_entries(outcomes).len() + failure_messages(outcomes).len() == outcomes.len(),
    decreases outcomes.len(),
{
    if outcomes.len() > 0 {
        law_every_outcome_is_kept_or_reported(outcomes.drop_last());
    }
}

/// Entry `i` of a table of contents is the last one that names its file.
pub open spec fn is_latest(entries: Seq<(u32, Seq<char>)>, i: int) -> bool {
    &&& 0 <= i < entries.len()
    &&& forall|j: int| i < j < entries.len() ==> #[trigger] entries[j].1 != entries[i].1
}

/// Entry `a` comes before entry `b` in the notebook: by ordering ID, then
/// by position in the table of contents.
pub open spec fn toc_before(entries: Seq<(u32, Seq<char>)>, a: int, b: int) -> bool {
    entries[a].0 < entries[b].0 || (entries[a].0 == entries[b].0 && a < b)
}

/// `ord` lists the last entry for each file, each once, in notebook order.
pub open spec fn is_toc_order(entries: Seq<(u32, Seq<char>)>, ord: Seq<int>) -> bool {
    &&& forall|k: int| 0 <= k < ord.len() ==> is_latest(entries, #[trigger] ord[k])
    &&& forall|i: int| is_latest(entries, i) ==> exists|k: int| 0 <= k < ord.len() && #[trigger] ord[k] == i
    &&& forall|a: int, b: int| 0 <= a < b < ord.len() ==> toc_before(entries, #[trigger] ord[a], #[trigger] ord[b])
}

/// The ordering IDs and file names of table-of-contents entries.
pub open spec fn toc_view(entries: Seq<(u32, String)>) -> Seq<(u32, Seq<char>)> {
    entries.map_values(|e: (u32, String)| (e.0, e.1@))
}

/// Whether entry `i` is the last one that names its file.
fn entry_is_latest(entries: &Vec<(u32, String)>, i: usize) -> (b: bool)
    requires
        i < entries@.len(),
    ensures
        b == is_latest(toc_view(entries@), i as int),
{
    let ghost v = toc_view(entries@);
    let len: usize = entries.len();
    let mut j: usize = i + 1;
    while j < len
        invariant
            len == entries@.len(),
            v == toc_view(entries@),
            i < j <= entries@.len(),
            forall|k: int| i < k < j ==> #[trigger] v[k].1 != v[i as int].1,
        decreases entries@.len() - j,
    {
        if entries[j].1 == entries[i].1 {
            assert(v[j as int].1 == v[i as int].1);
            return false;
        }
        j = j + 1;
    }
    true
}

/// Whether entry `a` comes before entry `b` in the notebook.
fn entry_before(entries: &Vec<(u32, String)>, a: usize, b: usize) -> (r: bool)
    requires
        a < entries@.len(),
        b < entries@.len(),
    ensures
        r == toc_before(toc_view(entries@), a as int, b as int),
{
    entries[a].0 < entries[b].0 || (entries[a].0 == entries[b].0 && a < b)
}

/// The positions of the entries that count, in notebook order.
fn toc_order(entries: &Vec<(u32, String)>) -> (sorted: Vec<usize>)
    ensures
        is_toc_order(toc_view(entries@), order_view(sorted@)),
        forall|j: int| 0 <= j < sorted@.len() ==> #[trigger] sorted@[j] < entries@.len(),
{
    let ghost v = toc_view(entries@);
    let mut sorted: Vec<usize> = Vec::new();
    let mut i: usize = 0;
    while i < entries.len()
        invariant
            v == toc_view(entries@),
            i <= entries@.len(),
            forall|k: int| 0 <= k < sorted@.len() ==> #[trigger] sorted@[k] < i && is_latest(v, sorted@[k] as int),
            forall|x: int| 0 <= x < i && is_latest(v, x) ==> exists|k: int| 0 <= k < sorted@.len() && #[trigger] sorted@[k] == x,
            forall|a: int, b: int| 0 <= a < b < sorted@.len() ==> toc_before(v, #[trigger] sorted@[a] as int, #[trigger] sorted@[b] as int),
        decreases entries@.len() - i,
    {
        if entry_is_latest(&entries, i) {
            let mut p: usize = 0;
            while p < sorted.len() && entry_before(&entries, sorted[p], i)
                invariant
                    v == toc_view(entries@),
                    i < entries@.len(),
                    p <= sorted@.len(),
                    forall|k: int| 0 <= k < sorted@.len() ==> #[trigger] sorted@[k] < i,
                    forall|k: int| 0 <= k < p ==> toc_before(v, #[trigger] sorted@[k] as int, i as int),
                decreases sorted@.len() - p,
            {
                p = p + 1;
            }
            let ghost before = sorted@;
            proof {
                assert forall|k: int| p <= k < before.len() implies toc_before(v, i as int, #[trigger] before[k] as int) by {
                    if k > p {
                        assert(toc_before(v, before[p as int] as int, before[k] as int));
                    }
                    assert(!toc_before(v, before[p as int] as int, i as int));
                }
            }
            sorted.insert(p, i);
            proof {
                assert(sorted@ == before.insert(p as int, i));
                assert forall|a: int, b: int| 0 <= a < b < sorted@.len() implies toc_before(v, #[trigger] sorted@[a] as int, #[trigger] sorted@[b] as int) by {
                    if b < p {
                        assert(toc_before(v, before[a] as int, before[b] as int));
                    } else if b == p {
                        assert(toc_before(v, before[a] as int, i as int));
                    } else if a < p {
                        assert(toc_before(v, before[a] as int, before[b - 1] as int));
                    } else if a == p {
                        assert(toc_before(v, i as int, before[b - 1] as int));
                    } else {
                        assert(toc_before(v, before[a - 1] as int, before[b - 1] as int));
                    }
                }
                assert forall|x: int| 0 <= x < i + 1 && is_latest(v, x) implies exists|k: int| 0 <= k < sorted@.len() && #[trigger] sorted@[k] == x by {
                    if x == i {
                        assert(sorted@[p as int] == x);
                    } else {
                        let k = choose|k: int| 0 <= k < before.len() && #[trigger] before[k] == x;
                        if k < p {
                            assert(sorted@[k] == x);
                        } else {
                            assert(sorted@[k + 1] == x);
                        }
                    }
                }
            }
        }
        i = i + 1;
    }
    let ghost ord = order_view(sorted@);
    assert(is_toc_order(v, ord)) by {
        assert forall|x: int| is_latest(v, x) implies exists|k: int| 0 <= k < ord.len() && #[trigger] ord[k] == x by {
            let k = choose|k: int| 0 <= k < sorted@.len() && #[trigger] sorted@[k] == x;
            assert(ord[k] == x);
        }
    }
    sorted
}

/// The positions `sorted` as integers.
pub open spec fn order_view(sorted: Seq<usize>) -> Seq<int> {
    sorted.map_values(|x: usize| x as int)
}

/// The file names of a table of contents in notebook order.
///
/// A table of contents may keep older ordering snapshots; the last entry
/// that names a file is the one that counts. Entries are ordered by their
/// ordering IDs, ties by their position.
pub fn ordered_toc_entries(entries: Vec<(u32, String)>) -> (names: Vec<String>)
    ensures
        exists|ord: Seq<int>|
            is_toc_order(toc_view(entries@), ord) && names@.len() == ord.len() && forall|k: int|
                0 <= k < ord.len() ==> #[trigger] names@[k]@ == toc_view(entries@)[ord[k]].1,
{
    let ghost v = toc_view(entries@);
    let sorted = toc_order(&entries);
    let mut names: Vec<String> = Vec::new();
    let mut k: usize = 0;
    while k < sorted.len()
        invariant
            v == toc_view(entries@),
            k <= sorted@.len(),
            names@.len() == k,
            forall|j: int| 0 <= j < sorted@.len() ==> #[trigger] sorted@[j] < entries@.len(),
            forall|j: int| 0 <= j < k ==> #[trigger] names@[j]@ == v[sorted@[j] as int].1,
        decreases sorted@.len() - k,
    {
        names.push(entries[sorted[k]].1.clone());
        k = k + 1;
    }
    let ghost ord = order_view(sorted@);
    assert(forall|j: int| 0 <= j < ord.len() ==> #[trigger] names@[j]@ == v[ord[j]].1);
    names
}

/// In notebook order each file is named once, and ordering IDs never
/// decrease.
pub proof fn law_toc_order_names_each_file_once(entries: Seq<(u32, Seq<char>)>, ord: Seq<int>)
    requires
        is_toc_order(entries, ord),
    ensures
        forall|a: int, b: int|
            0 <= a < b < ord.len() ==> #[trigger] entries[ord[a]].1 != #[trigger] entries[ord[b]].1,
        forall|a: int, b: int|
            0 <= a < b < ord.len() ==> entries[ord[a]].0 <= entries[ord[b]].0,
{
    assert forall|a: int, b: int| 0 <= a < b < ord.len() implies #[trigger] entries[ord[a]].1
        != #[trigger] entries[ord[b]].1 by {
        let x = ord[a];
        let y = ord[b];
        assert(is_latest(entries, x));
        assert(is_latest(entries, y));
        assert(toc_before(entries, x, y));
        if x < y {
            assert(entries[y].1 != entries[x].1);
        } else if y < x {
            assert(entries[x].1 != entries[y].1);
        }
    }
    assert forall|a: int, b: int| 0 <= a < b < ord.len() implies entries[ord[a]].0
        <= entries[ord[b]].0 by {
        assert(toc_before(entries, ord[a], ord[b]));
    }
}


/// The name of the directory in which OneNote keeps deleted sections.
pub const RECYCLE_BIN: &'static str = "OneNote_RecycleBin";

/// Whether the section entry `name` is the recycle bin: its last path
/// component is [`RECYCLE_BIN`].
pub open spec fn is_recycle_bin(name: Seq<char>) -> bool {
    name == RECYCLE_BIN@ || ends_with(name, seq!['\\'] + RECYCLE_BIN@) || ends_with(
        name,
        seq!['/'] + RECYCLE_BIN@,
    )
}

/// Whether the section entry `name` is the recycle bin.
pub fn entry_is_recycle_bin(name: &str) -> (b: bool)
    ensures
        b == is_recycle_bin(name@),
{
    let backslashed = "\\OneNote_RecycleBin";
    let slashed = "/OneNote_RecycleBin";
    proof {
        reveal_strlit("OneNote_RecycleBin");
        reveal_strlit("\\OneNote_RecycleBin");
        reveal_strlit("/OneNote_RecycleBin");
        assert(backslashed@ =~= seq!['\\'] + RECYCLE_BIN@);
        assert(slashed@ =~= seq!['/'] + RECYCLE_BIN@);
    }
    let exact = has_suffix(name, RECYCLE_BIN) && name.unicode_len() == RECYCLE_BIN.unicode_len();
    proof {
        if name@.len() == RECYCLE_BIN@.len() && ends_with(name@, RECYCLE_BIN@) {
            assert(name@.skip(0) =~= name@);
        }
        if name@ == RECYCLE_BIN@ {
            assert(name@.skip(0) =~= name@);
        }
    }
    exact || has_suffix(name, backslashed) || has_suffix(name, slashed)
}

/// The names that a notebook keeps, in the order `ord` of its table of
/// contents: those whose file exists, except the recycle bin.
pub open spec fn kept_names(toc: Seq<(u32, Seq<char>)>, exists: Seq<bool>, ord: Seq<int>) -> Seq<
    Seq<char>,
>
    decreases ord.len(),
{
    if ord.len() == 0 {
        Seq::empty()
    } else {
        let rest = kept_names(toc, exists, ord.drop_last());
        let i = ord.last();
        if exists[i] && !is_recycle_bin(toc[i].1) {
            rest.push(toc[i].1)
        } else {
            rest
        }
    }
}

/// Refuses a store that is not a notebook table of contents, naming the
/// file it was read from.
pub fn require_toc(store_type: OneStoreType, file: String) -> (r: crate::errors::Result<()>)
    ensures
        store_type == OneStoreType::TableOfContents ==> r == Ok::<(), Error>(()),
        store_type != OneStoreType::TableOfContents ==> r == Err::<(), Error>(
            Error { kind: ErrorKind::NotATocFile { file } },
        ),
{
    if store_type != OneStoreType::TableOfContents {
        return Err(Error::new(ErrorKind::NotATocFile { file }));
    }
    Ok(())
}

/// The section entries of a notebook, from the entries of its table of
/// contents and, for each of these, whether the file it names exists.
///
/// The entries that count are put in notebook order (see
/// [`ordered_toc_entries`]), and those whose file does not exist and the
/// recycle bin are left out. The store is checked to be a table of
/// contents first, with [`require_toc`].
pub fn notebook_entries(toc: Vec<(u32, String)>, exists: Vec<bool>) -> (names: Vec<String>)
    requires
        toc.len() == exists.len(),
    ensures
        exists|ord: Seq<int>|
            is_toc_order(toc_view(toc@), ord) && names@.map_values(|n: String| n@) == kept_names(
                toc_view(toc@),
                exists@,
                ord,
            ),
{
    let ghost v = toc_view(toc@);
    let sorted = toc_order(&toc);
    let ghost ord = order_view(sorted@);
    let mut names: Vec<String> = Vec::new();
    let mut k: usize = 0;
    proof {
        assert(names@.map_values(|n: String| n@) =~= kept_names(v, exists@, ord.take(0)));
    }
    while k < sorted.len()
        invariant
            v == toc_view(toc@),
            ord == order_view(sorted@),
            toc@.len() == exists@.len(),
            k <= sorted@.len(),
            forall|j: int| 0 <= j < sorted@.len() ==> #[trigger] sorted@[j] < toc@.len(),
            names@.map_values(|n: String| n@) == kept_names(v, exists@, ord.take(k as int)),
        decreases sorted@.len() - k,
    {
        let i = sorted[k];
        let ghost before = names@;
        proof {
            assert(ord.take(k + 1).drop_last() =~= ord.take(k as int));
            assert(ord.take(k + 1).last() == i as int);
        }
        if exists[i] && !entry_is_recycle_bin(toc[i].1.as_str()) {
            let name = toc[i].1.clone();
            names.push(name);
            proof {
                assert(names@.map_values(|n: String| n@) =~= before.map_values(|n: String| n@).push(
                    v[i as int].1,
                ));
            }
        }
        k = k + 1;
    }
    proof {
        assert(ord.take(sorted@.len() as int) =~= ord);
    }
    names
}

} // verus!
