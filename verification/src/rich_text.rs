use crate::errors::{Error, ErrorKind, Result};
use crate::exguid::ExGuid;
use crate::text::after_chars;
use vstd::prelude::*;
use vstd::string::*;

verus! {

/// The hidden marker that precedes the destination of a hyperlink in rich
/// text; the destination ends at the next double quote.
pub const HYPERLINK_MARKER: &'static str = "\u{fddf}HYPERLINK \"";

/// The hyperlink formatting of a text run.
#[derive(Debug, PartialEq, Eq, Structural, Clone, Copy)]
pub struct RunStyle {
    /// The run is part of a hyperlink.
    pub hyperlink: bool,
    /// The run is hidden from display.
    pub hidden: bool,
}

/// A text run: a range of UTF-16 code units with its formatting.
#[derive(Debug, PartialEq, Eq, Structural, Clone, Copy)]
pub struct TextRun {
    pub start: u32,
    pub end: u32,
    pub style: RunStyle,
}

/// A hyperlink attached to a visible range of rich text.
///
/// The range uses UTF-16 code-unit offsets, like the text run indices.
#[derive(Debug)]
pub struct TextHyperlink {
    target: String,
    start: u32,
    end: u32,
}

impl TextHyperlink {
    /// The destination, its inclusive start and its exclusive end.
    pub closed spec fn model(&self) -> (Seq<char>, u32, u32) {
        (self.target@, self.start, self.end)
    }

    /// The destination exactly as stored.
    pub fn target(&self) -> (t: &str)
        ensures
            t@ == self.model().0,
    {
        self.target.as_str()
    }

    /// Inclusive UTF-16 start offset of the visible link text.
    pub fn start(&self) -> (s: u32)
        ensures
            s == self.model().1,
    {
        self.start
    }

    /// Exclusive UTF-16 end offset of the visible link text.
    pub fn end(&self) -> (e: u32)
        ensures
            e == self.model().2,
    {
        self.end
    }
}

/// The number of UTF-16 code units that `c` takes.
pub open spec fn utf16_width(c: char) -> nat {
    if (c as u32) >= 0x10000 {
        2
    } else {
        1
    }
}

/// The number of UTF-16 code units that `s` takes.
pub open spec fn utf16_len(s: Seq<char>) -> nat
    decreases s.len(),
{
    if s.len() == 0 {
        0
    } else {
        utf16_len(s.drop_last()) + utf16_width(s.last())
    }
}

/// `n`, or `u32::MAX` when it does not fit in 32 bits.
pub open spec fn saturate(n: nat) -> u32 {
    if n > u32::MAX {
        u32::MAX
    } else {
        n as u32
    }
}

/// The UTF-16 offset of the character at position `k` of `s`, saturated
/// to 32 bits.
pub open spec fn utf16_offset(s: Seq<char>, k: int) -> u32 {
    saturate(utf16_len(s.take(k)))
}

/// Where run `k` ends, given where it starts: at its index (or at `total`
/// for a run without one), clamped to the text and to its start.
pub open spec fn run_end(total: u32, indices: Seq<u32>, k: int, start: u32) -> u32 {
    let bound = if 0 <= k < indices.len() {
        indices[k]
    } else {
        total
    };
    let clamped = if bound < total {
        bound
    } else {
        total
    };
    if clamped > start {
        clamped
    } else {
        start
    }
}

/// Where run `k` starts: where the run before it ends.
pub open spec fn run_start(total: u32, indices: Seq<u32>, k: nat) -> u32
    decreases k,
{
    if k == 0 {
        0
    } else {
        run_end(total, indices, k - 1, run_start(total, indices, (k - 1) as nat))
    }
}

/// The text runs that `styles` and `indices` describe over `total` UTF-16
/// code units.
pub open spec fn runs_spec(total: u32, indices: Seq<u32>, styles: Seq<RunStyle>) -> Seq<TextRun> {
    Seq::new(
        styles.len(),
        |k: int|
            TextRun {
                start: run_start(total, indices, k as nat),
                end: run_start(total, indices, (k + 1) as nat),
                style: styles[k],
            },
    )
}

/// The text runs of a paragraph: one per style, each ending at its index
/// (the last at the end of the text), never before it starts nor after the
/// end of the text.
pub fn text_runs(total: u32, indices: &[u32], styles: &[RunStyle]) -> (runs: Vec<TextRun>)
    ensures
        runs@ == runs_spec(total, indices@, styles@),
{
    let mut runs: Vec<TextRun> = Vec::new();
    let mut start: u32 = 0;
    let mut k: usize = 0;
    while k < styles.len()
        invariant
            k <= styles@.len(),
            start == run_start(total, indices@, k as nat),
            runs@ == runs_spec(total, indices@, styles@).take(k as int),
        decreases styles@.len() - k,
    {
        let bound = if k < indices.len() {
            indices[k]
        } else {
            total
        };
        let clamped = if bound < total {
            bound
        } else {
            total
        };
        let end = if clamped > start {
            clamped
        } else {
            start
        };
        runs.push(TextRun { start, end, style: styles[k] });
        proof {
            assert(runs_spec(total, indices@, styles@).take(k + 1) =~= runs_spec(
                total,
                indices@,
                styles@,
            ).take(k as int).push(TextRun { start, end, style: styles@[k as int] }));
        }
        start = end;
        k = k + 1;
    }
    proof {
        assert(runs_spec(total, indices@, styles@).take(k as int) =~= runs_spec(
            total,
            indices@,
            styles@,
        ));
    }
    runs
}

/// The characters of `text`.
fn text_chars(text: &str) -> (chars: Vec<char>)
    ensures
        chars@ == text@,
{
    let n = text.unicode_len();
    let mut chars: Vec<char> = Vec::new();
    let mut i: usize = 0;
    while i < n
        invariant
            n == text@.len(),
            i <= n,
            chars@ == text@.take(i as int),
        decreases n - i,
    {
        chars.push(text.get_char(i));
        proof {
            assert(text@.take(i + 1) =~= text@.take(i as int).push(text@[i as int]));
        }
        i = i + 1;
    }
    proof {
        assert(text@.take(i as int) =~= text@);
    }
    chars
}

/// The UTF-16 offset of the character at position `k` of `chars`, saturated
/// to 32 bits.
fn utf16_offset_of(chars: &Vec<char>, k: usize) -> (n: u32)
    requires
        k <= chars@.len(),
    ensures
        n == utf16_offset(chars@, k as int),
{
    let cap: u64 = 0x1_0000_0000;
    let mut acc: u64 = 0;
    let mut i: usize = 0;
    while i < k
        invariant
            k <= chars@.len(),
            i <= k,
            cap == 0x1_0000_0000,
            acc == (if utf16_len(chars@.take(i as int)) < cap {
                utf16_len(chars@.take(i as int))
            } else {
                cap as nat
            }),
        decreases k - i,
    {
        let w: u64 = if (chars[i] as u32) >= 0x10000 {
            2
        } else {
            1
        };
        proof {
            assert(chars@.take(i + 1).drop_last() =~= chars@.take(i as int));
        }
        acc = if acc + w < cap {
            acc + w
        } else {
            cap
        };
        i = i + 1;
    }
    if acc > 0xFFFF_FFFF {
        0xFFFF_FFFF
    } else {
        acc as u32
    }
}

/// The position of the first occurrence of `pattern` in `s` at or after
/// `from`.
pub open spec fn find_spec(s: Seq<char>, pattern: Seq<char>, from: int) -> Option<int>
    decreases s.len() + 1 - from,
{
    if from < 0 || from + pattern.len() > s.len() {
        None
    } else if s.subrange(from, from + pattern.len()) == pattern {
        Some(from)
    } else {
        find_spec(s, pattern, from + 1)
    }
}

/// An occurrence found is at or after where the search began.
pub proof fn lemma_find_after(s: Seq<char>, pattern: Seq<char>, from: int)
    ensures
        find_spec(s, pattern, from) matches Some(p) ==> from <= p && p + pattern.len() <= s.len(),
    decreases s.len() + 1 - from,
{
    if !(from < 0 || from + pattern.len() > s.len()) && s.subrange(from, from + pattern.len())
        != pattern {
        lemma_find_after(s, pattern, from + 1);
    }
}

/// The position of the first occurrence of `pattern` in `s` at or after
/// `from`.
fn find_from(s: &Vec<char>, pattern: &Vec<char>, from: usize) -> (r: Option<usize>)
    ensures
        match find_spec(s@, pattern@, from as int) {
            Some(p) => r == Some(p as usize),
            None => r is None,
        },
{
    let n: usize = s.len();
    let mut p: usize = from;
    while p <= n && pattern.len() <= n - p
        invariant
            n == s@.len(),
            from <= p,
            find_spec(s@, pattern@, from as int) == find_spec(s@, pattern@, p as int),
        decreases s@.len() + 1 - p,
    {
        let mut j: usize = 0;
        while j < pattern.len() && s[p + j] == pattern[j]
            invariant
                n == s@.len(),
                p + pattern@.len() <= s@.len(),
                j <= pattern@.len(),
                forall|t: int| 0 <= t < j ==> s@[p + t] == pattern@[t],
            decreases pattern@.len() - j,
        {
            j = j + 1;
        }
        if j == pattern.len() {
            assert(s@.subrange(p as int, p + pattern@.len()) =~= pattern@);
            return Some(p);
        }
        assert(s@.subrange(p as int, p + pattern@.len())[j as int] != pattern@[j as int]);
        p = p + 1;
    }
    None
}

/// Whether the runs that overlap `[a, b)` are there and are all hidden
/// hyperlink runs.
pub open spec fn marker_is_hidden_link(runs: Seq<TextRun>, a: u32, b: u32) -> bool {
    &&& exists|i: int| 0 <= i < runs.len() && #[trigger] runs[i].end > a && runs[i].start < b
    &&& forall|i: int|
        0 <= i < runs.len() && #[trigger] runs[i].end > a && runs[i].start < b ==> runs[i].style.hyperlink
            && runs[i].style.hidden
}

/// The first run from `i` on that ends after `after` and is not a hidden
/// hyperlink run, if it is a visible hyperlink run.
pub open spec fn first_visible_link(runs: Seq<TextRun>, after: u32, i: int) -> Option<int>
    decreases runs.len() - i,
{
    if i < 0 || i >= runs.len() {
        None
    } else if runs[i].end <= after || (runs[i].style.hidden && runs[i].style.hyperlink) {
        first_visible_link(runs, after, i + 1)
    } else if runs[i].style.hyperlink && !runs[i].style.hidden {
        Some(i)
    } else {
        None
    }
}

/// A run found is a run at or after `i`.
pub proof fn lemma_first_visible_link(runs: Seq<TextRun>, after: u32, i: int)
    ensures
        first_visible_link(runs, after, i) matches Some(f) ==> i <= f < runs.len() && 0 <= f,
    decreases runs.len() - i,
{
    if !(i < 0 || i >= runs.len()) && (runs[i].end <= after || (runs[i].style.hidden
        && runs[i].style.hyperlink)) {
        lemma_first_visible_link(runs, after, i + 1);
    }
}

/// Where a link ending at `end` ends once the contiguous visible hyperlink
/// runs from `i` on are added to it.
pub open spec fn extend_end(runs: Seq<TextRun>, i: int, end: u32) -> u32
    decreases runs.len() - i,
{
    if i < 0 || i >= runs.len() {
        end
    } else if runs[i].start != end || !runs[i].style.hyperlink || runs[i].style.hidden {
        end
    } else {
        extend_end(runs, i + 1, runs[i].end)
    }
}

/// The hyperlinks whose markers start at or after character `from` of `s`,
/// in order: each marker is followed by its destination up to a double
/// quote; it counts when the runs over it are hidden hyperlink runs and a
/// visible hyperlink run follows it.
pub open spec fn hyperlinks_spec(s: Seq<char>, runs: Seq<TextRun>, from: int) -> Seq<
    (Seq<char>, u32, u32),
>
    decreases s.len() - from,
{
    match find_spec(s, HYPERLINK_MARKER@, from) {
        None => Seq::empty(),
        Some(marker_start) => {
            let target_start = marker_start + HYPERLINK_MARKER@.len();
            match find_spec(s, seq!['"'], target_start) {
                None => Seq::empty(),
                Some(target_end) => {
                    let marker_end = target_end + 1;
                    proof {
                        lemma_find_after(s, HYPERLINK_MARKER@, from);
                        lemma_find_after(s, seq!['"'], target_start);
                    }
                    let rest = hyperlinks_spec(s, runs, marker_end);
                    let a = utf16_offset(s, marker_start);
                    let b = utf16_offset(s, marker_end);
                    if !marker_is_hidden_link(runs, a, b) {
                        rest
                    } else {
                        match first_visible_link(runs, b, 0) {
                            None => rest,
                            Some(f) => {
                                let start = if runs[f].start > b {
                                    runs[f].start
                                } else {
                                    b
                                };
                                let end = extend_end(runs, f + 1, runs[f].end);
                                if start < end && target_start < target_end {
                                    seq![(s.subrange(target_start, target_end), start, end)] + rest
                                } else {
                                    rest
                                }
                            },
                        }
                    }
                },
            }
        },
    }
}

/// Whether the runs that overlap `[a, b)` are there and are all hidden
/// hyperlink runs.
fn marker_hidden(runs: &Vec<TextRun>, a: u32, b: u32) -> (r: bool)
    ensures
        r == marker_is_hidden_link(runs@, a, b),
{
    let mut any = false;
    let mut k: usize = 0;
    while k < runs.len()
        invariant
            k <= runs@.len(),
            any == exists|i: int| 0 <= i < k && #[trigger] runs@[i].end > a && runs@[i].start < b,
            forall|i: int|
                0 <= i < k && #[trigger] runs@[i].end > a && runs@[i].start < b ==> runs@[i].style.hyperlink
                    && runs@[i].style.hidden,
        decreases runs@.len() - k,
    {
        let run = runs[k];
        if run.end > a && run.start < b {
            if !(run.style.hyperlink && run.style.hidden) {
                return false;
            }
            any = true;
        }
        k = k + 1;
    }
    any
}

/// The first run that ends after `after` and is not a hidden hyperlink run,
/// if it is a visible hyperlink run.
fn first_visible(runs: &Vec<TextRun>, after: u32) -> (r: Option<usize>)
    ensures
        match first_visible_link(runs@, after, 0) {
            Some(f) => r == Some(f as usize),
            None => r is None,
        },
{
    let mut k: usize = 0;
    while k < runs.len()
        invariant
            k <= runs@.len(),
            first_visible_link(runs@, after, 0) == first_visible_link(runs@, after, k as int),
        decreases runs@.len() - k,
    {
        let run = runs[k];
        if run.end <= after || (run.style.hidden && run.style.hyperlink) {
            k = k + 1;
        } else if run.style.hyperlink && !run.style.hidden {
            return Some(k);
        } else {
            return None;
        }
    }
    None
}

/// Where a link ending at `end` ends once the contiguous visible hyperlink
/// runs from `i` on are added to it.
fn extend_link_end(runs: &Vec<TextRun>, i: usize, end: u32) -> (r: u32)
    requires
        i <= runs@.len(),
    ensures
        r == extend_end(runs@, i as int, end),
{
    let mut k = i;
    let mut e = end;
    while k < runs.len()
        invariant
            i <= k <= runs@.len(),
            extend_end(runs@, i as int, end) == extend_end(runs@, k as int, e),
        decreases runs@.len() - k,
    {
        let run = runs[k];
        if run.start != e || !run.style.hyperlink || run.style.hidden {
            return e;
        }
        e = run.end;
        k = k + 1;
    }
    e
}

/// The views of the links.
pub open spec fn links_view(links: Seq<TextHyperlink>) -> Seq<(Seq<char>, u32, u32)> {
    links.map_values(|l: TextHyperlink| l.model())
}

/// The hyperlinks of a paragraph with the given text, run indices and run
/// styles.
///
/// A hidden `HYPERLINK` marker holds the destination; the visible
/// hyperlink runs that follow it give the range. Malformed or unassociated
/// markers are ignored.
pub fn extract_hyperlinks(text: &str, indices: &[u32], styles: &[RunStyle]) -> (links: Vec<
    TextHyperlink,
>)
    ensures
        links_view(links@) == hyperlinks_spec(
            text@,
            runs_spec(utf16_offset(text@, text@.len() as int), indices@, styles@),
            0,
        ),
{
    let chars = text_chars(text);
    let total = utf16_offset_of(&chars, chars.len());
    let runs = text_runs(total, indices, styles);
    let marker = text_chars(HYPERLINK_MARKER);
    let quote: Vec<char> = vec!['"'];
    assert(quote@ =~= seq!['"']);
    let ghost s = text@;
    let n: usize = chars.len();
    let nruns: usize = runs.len();
    let mut links: Vec<TextHyperlink> = Vec::new();
    let mut search_from: usize = 0;
    loop
        invariant
            s == text@,
            chars@ == s,
            n == s.len(),
            nruns == runs@.len(),
            marker@ == HYPERLINK_MARKER@,
            quote@ == seq!['"'],
            search_from <= s.len(),
            hyperlinks_spec(s, runs@, 0) == links_view(links@) + hyperlinks_spec(
                s,
                runs@,
                search_from as int,
            ),
        ensures
            hyperlinks_spec(s, runs@, 0) == links_view(links@),
        decreases s.len() - search_from,
    {
        let marker_start = match find_from(&chars, &marker, search_from) {
            Some(p) => p,
            None => {
                proof {
                    assert(links_view(links@) + Seq::<(Seq<char>, u32, u32)>::empty() =~= links_view(links@));
                }
                break;
            },
        };
        proof {
            lemma_find_after(s, HYPERLINK_MARKER@, search_from as int);
        }
        let target_start = marker_start + marker.len();
        let target_end = match find_from(&chars, &quote, target_start) {
            Some(p) => p,
            None => {
                proof {
                    assert(links_view(links@) + Seq::<(Seq<char>, u32, u32)>::empty() =~= links_view(links@));
                }
                break;
            },
        };
        proof {
            lemma_find_after(s, seq!['"'], target_start as int);
        }
        let marker_end = target_end + 1;
        let ghost previous = search_from;
        search_from = marker_end;
        let a = utf16_offset_of(&chars, marker_start);
        let b = utf16_offset_of(&chars, marker_end);
        if !marker_hidden(&runs, a, b) {
            continue;
        }
        let first = match first_visible(&runs, b) {
            Some(f) => f,
            None => {
                continue;
            },
        };
        proof {
            lemma_first_visible_link(runs@, b, 0);
        }
        let start = if runs[first].start > b {
            runs[first].start
        } else {
            b
        };
        let end = extend_link_end(&runs, first + 1, runs[first].end);
        if start < end && target_start < target_end {
            let target = String::from_str(text.substring_char(target_start, target_end));
            let ghost before = links@;
            links.push(TextHyperlink { target, start, end });
            proof {
                assert(links_view(links@) =~= links_view(before).push(
                    (s.subrange(target_start as int, target_end as int), start, end),
                ));
                assert(links_view(before) + (seq![(s.subrange(target_start as int, target_end as int), start, end)]
                    + hyperlinks_spec(s, runs@, marker_end as int)) =~= links_view(links@)
                    + hyperlinks_spec(s, runs@, marker_end as int));
            }
        }
    }
    links
}

/// Repairs paragraphs whose text starts with a vertical tab that has a run
/// of its own while the run styles are shifted by one: the tab and its run
/// index are dropped, the other indices move back by one, and a trailing
/// style that has no run left is dropped.
///
/// Nothing changes unless the text starts with U+000B, the first index is
/// 1, and there are as many styles as indices or one more.
pub fn fix_leading_vt_misalignment<T>(text: &mut String, indices: &mut Vec<u32>, styles: &mut Vec<T>)
    requires
        ({
            let applies = old(text)@.len() > 0 && old(text)@[0] == '\u{b}' && old(indices)@.len() > 0
                && old(indices)@[0] == 1 && (old(styles)@.len() == old(indices)@.len()
                || old(styles)@.len() == old(indices)@.len() + 1);
            applies ==> forall|k: int| 1 <= k < old(indices)@.len() ==> old(indices)@[k] >= 1
        }),
    ensures
        ({
            let applies = old(text)@.len() > 0 && old(text)@[0] == '\u{b}' && old(indices)@.len() > 0
                && old(indices)@[0] == 1 && (old(styles)@.len() == old(indices)@.len()
                || old(styles)@.len() == old(indices)@.len() + 1);
            if applies {
                &&& final(text)@ == old(text)@.skip(1)
                &&& final(indices)@ == old(indices)@.skip(1).map_values(|x: u32| (x - 1) as u32)
                &&& final(styles)@ == if old(styles)@.len() == old(indices)@.len() + 1 {
                    old(styles)@.drop_last()
                } else {
                    old(styles)@
                }
            } else {
                &&& final(text)@ == old(text)@
                &&& final(indices)@ == old(indices)@
                &&& final(styles)@ == old(styles)@
            }
        }),
{
    let t = text.as_str();
    if t.unicode_len() == 0 || t.get_char(0) != '\u{000B}' {
        return;
    }
    if indices.len() == 0 || indices[0] != 1 {
        return;
    }
    let drop_trailing_style = if styles.len() > indices.len() && styles.len() - indices.len() == 1 {
        true
    } else if styles.len() == indices.len() {
        false
    } else {
        return;
    };
    let rest = String::from_str(after_chars(text.as_str(), 1));
    *text = rest;
    let ghost old_indices = indices@;
    indices.remove(0);
    let mut k: usize = 0;
    while k < indices.len()
        invariant
            old_indices.len() > 0,
            forall|j: int| 1 <= j < old_indices.len() ==> old_indices[j] >= 1,
            indices@.len() == old_indices.len() - 1,
            k <= indices@.len(),
            forall|j: int| 0 <= j < k ==> indices@[j] == (old_indices[j + 1] - 1) as u32,
            forall|j: int| k <= j < indices@.len() ==> indices@[j] == old_indices[j + 1],
        decreases indices@.len() - k,
    {
        let x = indices[k];
        indices.set(k, x - 1);
        k = k + 1;
    }
    assert(indices@ =~= old_indices.skip(1).map_values(|x: u32| (x - 1) as u32));
    if drop_trailing_style {
        styles.pop();
    }
}

/// Runs never end after the text nor before they start.
proof fn lemma_run_start_bound(total: u32, indices: Seq<u32>, k: nat)
    ensures
        run_start(total, indices, k) <= total,
    decreases k,
{
    if k > 0 {
        lemma_run_start_bound(total, indices, (k - 1) as nat);
    }
}

/// The text runs cover the text from its start without gaps: each starts
/// where the one before ends, none ends before it starts, and none ends
/// after the text.
pub proof fn law_runs_are_contiguous(total: u32, indices: Seq<u32>, styles: Seq<RunStyle>)
    ensures
        ({
            let runs = runs_spec(total, indices, styles);
            &&& runs.len() == styles.len()
            &&& runs.len() > 0 ==> runs[0].start == 0
            &&& forall|k: int| 0 <= k < runs.len() ==> #[trigger] runs[k].start <= runs[k].end <= total
            &&& forall|k: int| 0 <= k < runs.len() - 1 ==> #[trigger] runs[k + 1].start == runs[k].end
        }),
{
    let runs = runs_spec(total, indices, styles);
    assert forall|k: int| 0 <= k < runs.len() implies #[trigger] runs[k].start <= runs[k].end <= total by {
        lemma_run_start_bound(total, indices, (k + 1) as nat);
    }
}

/// Every hyperlink found covers a non-empty range and has a non-empty
/// destination.
pub proof fn law_hyperlinks_are_nonempty(s: Seq<char>, runs: Seq<TextRun>, from: int)
    ensures
        forall|k: int|
            0 <= k < hyperlinks_spec(s, runs, from).len() ==> #[trigger] hyperlinks_spec(
                s,
                runs,
                from,
            )[k].1 < hyperlinks_spec(s, runs, from)[k].2 && hyperlinks_spec(s, runs, from)[k].0.len()
                > 0,
    decreases s.len() - from,
{
    match find_spec(s, HYPERLINK_MARKER@, from) {
        None => {},
        Some(marker_start) => {
            let target_start = marker_start + HYPERLINK_MARKER@.len();
            match find_spec(s, seq!['"'], target_start) {
                None => {},
                Some(target_end) => {
                    lemma_find_after(s, HYPERLINK_MARKER@, from);
                    lemma_find_after(s, seq!['"'], target_start);
                    law_hyperlinks_are_nonempty(s, runs, target_end + 1);
                    let rest = hyperlinks_spec(s, runs, target_end + 1);
                    let full = hyperlinks_spec(s, runs, from);
                    assert forall|k: int| 0 <= k < full.len() implies #[trigger] full[k].1 < full[k].2
                        && full[k].0.len() > 0 by {
                        if full.len() == rest.len() {
                            assert(full == rest);
                            assert(rest[k].1 < rest[k].2);
                        } else if k > 0 {
                            assert(full[k] == rest[k - 1]);
                            assert(rest[k - 1].1 < rest[k - 1].2);
                        }
                    }
                },
            }
        },
    }
}



/// Runs laid end to end within `[0, total]`, as [`runs_spec`] gives them.
pub open spec fn runs_in_order(runs: Seq<TextRun>, total: u32) -> bool {
    &&& forall|k: int| 0 <= k < runs.len() ==> #[trigger] runs[k].start <= runs[k].end <= total
    &&& forall|k: int| 0 <= k < runs.len() - 1 ==> #[trigger] runs[k + 1].start == runs[k].end
}

/// Whether `s` holds, at position `m`, the hyperlink marker followed by
/// the destination `t` and a double quote.
pub open spec fn marker_at(s: Seq<char>, m: int, t: Seq<char>) -> bool {
    let ts = m + HYPERLINK_MARKER@.len();
    &&& 0 <= m
    &&& ts + t.len() < s.len()
    &&& s.subrange(m, ts) == HYPERLINK_MARKER@
    &&& s.subrange(ts, ts + t.len()) == t
    &&& s[ts + t.len()] == '"'
}

/// What every hyperlink `l` found in `s` over `runs` satisfies: it covers
/// a non-empty range inside the text; its destination is non-empty, holds
/// no double quote, and is stored after a marker that hidden hyperlink
/// runs cover and that ends no later than the link starts; and every
/// non-empty run over the link is a visible hyperlink run.
pub open spec fn link_facts(s: Seq<char>, runs: Seq<TextRun>, total: u32, l: (Seq<char>, u32, u32)) -> bool {
    &&& l.1 < l.2 <= total
    &&& l.0.len() > 0
    &&& !l.0.contains('"')
    &&& exists|m: int|
        #[trigger] marker_at(s, m, l.0) && marker_is_hidden_link(
            runs,
            utf16_offset(s, m),
            utf16_offset(s, m + HYPERLINK_MARKER@.len() + l.0.len() + 1),
        ) && utf16_offset(s, m + HYPERLINK_MARKER@.len() + l.0.len() + 1) <= l.1
    &&& forall|i: int|
        0 <= i < runs.len() && #[trigger] runs[i].start < runs[i].end && runs[i].end > l.1
            && runs[i].start < l.2 ==> runs[i].style.hyperlink && !runs[i].style.hidden
}

/// An occurrence found matches the pattern, and none comes before it.
proof fn lemma_find_found(s: Seq<char>, pattern: Seq<char>, from: int)
    ensures
        find_spec(s, pattern, from) matches Some(p) ==> s.subrange(p, p + pattern.len()) == pattern
            && forall|q: int| from <= q < p ==> #[trigger] s.subrange(q, q + pattern.len()) != pattern,
    decreases s.len() + 1 - from,
{
    if !(from < 0 || from + pattern.len() > s.len()) && s.subrange(from, from + pattern.len())
        != pattern {
        lemma_find_found(s, pattern, from + 1);
    }
}

/// A run in order starts where the run before it ends.
proof fn lemma_next_run(runs: Seq<TextRun>, total: u32, k: int)
    requires
        runs_in_order(runs, total),
        0 <= k < runs.len() - 1,
    ensures
        runs[k + 1].start == runs[k].end,
{
}

/// Runs in order start no earlier than the runs before them end.
proof fn lemma_runs_ordered(runs: Seq<TextRun>, total: u32, j: int, k: int)
    requires
        runs_in_order(runs, total),
        0 <= j < k < runs.len(),
    ensures
        runs[j].end <= runs[k].start,
        runs[j].start <= runs[k].start,
    decreases k - j,
{
    if j + 1 < k {
        lemma_runs_ordered(runs, total, j + 1, k);
        assert(runs[j + 1].start == runs[j].end);
    } else {
        assert(runs[j + 1].start == runs[j].end);
    }
}

/// The run found by [`first_visible_link`] is a visible hyperlink run that
/// ends after `after`; the runs before it end by `after` or are hidden
/// hyperlink runs.
proof fn lemma_first_visible_facts(runs: Seq<TextRun>, after: u32, i: int)
    requires
        0 <= i,
    ensures
        first_visible_link(runs, after, i) matches Some(f) ==> i <= f < runs.len() && runs[f].style.hyperlink
            && !runs[f].style.hidden && runs[f].end > after,
    decreases runs.len() - i,
{
    if !(i < 0 || i >= runs.len()) && (runs[i].end <= after || (runs[i].style.hidden
        && runs[i].style.hyperlink)) {
        lemma_first_visible_facts(runs, after, i + 1);
    }
}

/// The end that [`extend_end`] reaches is that of the last of a stretch
/// `[i, g)` of visible hyperlink runs laid end to end from `end`, or `end`
/// itself when the stretch is empty; the run at `g`, if any, does not
/// continue it.
proof fn lemma_extend(runs: Seq<TextRun>, i: int, end: u32) -> (g: int)
    requires
        0 <= i <= runs.len(),
    ensures
        i <= g <= runs.len(),
        forall|k: int| i <= k < g ==> #[trigger] runs[k].style.hyperlink && !runs[k].style.hidden,
        g == i ==> extend_end(runs, i, end) == end,
        g > i ==> extend_end(runs, i, end) == runs[g - 1].end && runs[i].start == end,
        g < runs.len() ==> !(runs[g].start == extend_end(runs, i, end) && runs[g].style.hyperlink
            && !runs[g].style.hidden),
    decreases runs.len() - i,
{
    if i >= runs.len() || runs[i].start != end || !runs[i].style.hyperlink || runs[i].style.hidden {
        i
    } else {
        let g = lemma_extend(runs, i + 1, runs[i].end);
        if g == i + 1 {
            assert(extend_end(runs, i, end) == runs[i].end);
        }
        g
    }
}

/// The facts about one link that [`hyperlinks_spec`] adds at a marker.
proof fn lemma_one_link(
    s: Seq<char>,
    runs: Seq<TextRun>,
    total: u32,
    marker_start: int,
    target_start: int,
    target_end: int,
)
    requires
        runs_in_order(runs, total),
        find_spec(s, HYPERLINK_MARKER@, marker_start) == Some(marker_start),
        target_start == marker_start + HYPERLINK_MARKER@.len(),
        find_spec(s, seq!['"'], target_start) == Some(target_end),
        target_start < target_end,
        marker_is_hidden_link(runs, utf16_offset(s, marker_start), utf16_offset(s, target_end + 1)),
        first_visible_link(runs, utf16_offset(s, target_end + 1), 0) is Some,
        ({
            let b = utf16_offset(s, target_end + 1);
            let f = first_visible_link(runs, b, 0)->0;
            let start = if runs[f].start > b {
                runs[f].start
            } else {
                b
            };
            start < extend_end(runs, f + 1, runs[f].end)
        }),
    ensures
        ({
            let b = utf16_offset(s, target_end + 1);
            let f = first_visible_link(runs, b, 0)->0;
            let start = if runs[f].start > b {
                runs[f].start
            } else {
                b
            };
            link_facts(s, runs, total, (s.subrange(target_start, target_end), start, extend_end(runs, f + 1, runs[f].end)))
        }),
{
    let b = utf16_offset(s, target_end + 1);
    let f = first_visible_link(runs, b, 0)->0;
    let start = if runs[f].start > b {
        runs[f].start
    } else {
        b
    };
    let end = extend_end(runs, f + 1, runs[f].end);
    let t = s.subrange(target_start, target_end);
    lemma_find_found(s, HYPERLINK_MARKER@, marker_start);
    lemma_find_found(s, seq!['"'], target_start);
    lemma_find_after(s, seq!['"'], target_start);
    lemma_find_after(s, HYPERLINK_MARKER@, marker_start);
    lemma_first_visible_facts(runs, b, 0);
    let g = lemma_extend(runs, f + 1, runs[f].end);
    // The destination holds no quote and is followed by one.
    assert(s.subrange(target_end, target_end + 1) == seq!['"']);
    assert(s[target_end] == s.subrange(target_end, target_end + 1)[0]);
    assert(!t.contains('"')) by {
        assert forall|x: int| 0 <= x < t.len() implies t[x] != '"' by {
            let q = target_start + x;
            assert(s.subrange(q, q + 1) != seq!['"']);
            assert(s.subrange(q, q + 1) =~= seq![s[q]]);
        }
    }
    assert(marker_at(s, marker_start, t)) by {
        assert(s.subrange(target_start, target_start + t.len()) =~= t);
    }
    assert(target_start + t.len() + 1 == target_end + 1);
    // The link ends inside the text.
    assert(end <= total) by {
        if g > f + 1 {
            assert(runs[g - 1].start <= runs[g - 1].end <= total);
        } else {
            assert(runs[f].start <= runs[f].end <= total);
        }
    }
    // Every non-empty run over the link is a visible hyperlink run.
    assert forall|i: int|
        0 <= i < runs.len() && #[trigger] runs[i].start < runs[i].end && runs[i].end > start
            && runs[i].start < end implies runs[i].style.hyperlink && !runs[i].style.hidden by {
        if i < f {
            lemma_runs_ordered(runs, total, i, f);
        } else if i >= g && i > f {
            assert(g < runs.len());
            lemma_next_run(runs, total, g - 1);
            if i > g {
                lemma_runs_ordered(runs, total, g, i);
            }
        }
    }
    assert(start < end <= total);
    assert(t.len() > 0);
    assert(marker_is_hidden_link(runs, utf16_offset(s, marker_start), utf16_offset(s, marker_start + HYPERLINK_MARKER@.len() + t.len() + 1)));
    assert(utf16_offset(s, marker_start + HYPERLINK_MARKER@.len() + t.len() + 1) <= start);
    let l = (t, start, end);
    assert(l.0 == t);
    assert(marker_at(s, marker_start, l.0));
    assert(exists|m: int|
        #[trigger] marker_at(s, m, l.0) && marker_is_hidden_link(
            runs,
            utf16_offset(s, m),
            utf16_offset(s, m + HYPERLINK_MARKER@.len() + l.0.len() + 1),
        ) && utf16_offset(s, m + HYPERLINK_MARKER@.len() + l.0.len() + 1) <= l.1);
    assert(!l.0.contains('"'));
    assert(l.1 < l.2 <= total);
}

/// Every hyperlink found in text over runs laid end to end within the
/// text's UTF-16 length `total` satisfies [`link_facts`]: a non-empty range
/// inside the text, covered only by visible hyperlink runs, and a
/// non-empty destination without a double quote, stored after a marker
/// that hidden hyperlink runs cover and that ends before the link starts.
pub proof fn law_hyperlinks_are_well_placed(s: Seq<char>, runs: Seq<TextRun>, total: u32, from: int)
    requires
        runs_in_order(runs, total),
    ensures
        forall|k: int|
            0 <= k < hyperlinks_spec(s, runs, from).len() ==> link_facts(
                s,
                runs,
                total,
                #[trigger] hyperlinks_spec(s, runs, from)[k],
            ),
    decreases s.len() - from,
{
    match find_spec(s, HYPERLINK_MARKER@, from) {
        None => {},
        Some(marker_start) => {
            let target_start = marker_start + HYPERLINK_MARKER@.len();
            match find_spec(s, seq!['"'], target_start) {
                None => {},
                Some(target_end) => {
                    lemma_find_after(s, HYPERLINK_MARKER@, from);
                    lemma_find_after(s, seq!['"'], target_start);
                    lemma_find_found(s, HYPERLINK_MARKER@, from);
                    law_hyperlinks_are_well_placed(s, runs, total, target_end + 1);
                    let rest = hyperlinks_spec(s, runs, target_end + 1);
                    let full = hyperlinks_spec(s, runs, from);
                    if full.len() != rest.len() {
                        assert(find_spec(s, HYPERLINK_MARKER@, marker_start) == Some(marker_start));
                        lemma_one_link(s, runs, total, marker_start, target_start, target_end);
                    }
                    assert forall|k: int| 0 <= k < full.len() implies link_facts(
                        s,
                        runs,
                        total,
                        #[trigger] full[k],
                    ) by {
                        if full.len() == rest.len() {
                            assert(full == rest);
                        } else if k > 0 {
                            assert(full[k] == rest[k - 1]);
                        }
                    }
                },
            }
        },
    }
}

/// The hyperlinks that [`extract_hyperlinks`] returns for a paragraph all
/// satisfy [`link_facts`] over its runs and the UTF-16 length of its text.
pub proof fn law_extracted_hyperlinks_are_well_placed(text: Seq<char>, indices: Seq<u32>, styles: Seq<RunStyle>)
    ensures
        ({
            let total = utf16_offset(text, text.len() as int);
            let runs = runs_spec(total, indices, styles);
            forall|k: int|
                0 <= k < hyperlinks_spec(text, runs, 0).len() ==> link_facts(
                    text,
                    runs,
                    total,
                    #[trigger] hyperlinks_spec(text, runs, 0)[k],
                )
        }),
{
    let total = utf16_offset(text, text.len() as int);
    law_runs_are_contiguous(total, indices, styles);
    law_hyperlinks_are_well_placed(text, runs_spec(total, indices, styles), total, 0);
}

/// An ink handwriting object embedded in a rich text paragraph: its ink
/// data, of type `I`, and the box of type `B` that it is displayed in,
/// when the paragraph gives one.
#[derive(Debug)]
pub struct EmbeddedInkContainer<I, B> {
    pub ink: I,
    pub bounding_box: Option<B>,
}

impl<I, B> EmbeddedInkContainer<I, B> {
    /// The ink data embedded in the paragraph.
    pub fn ink(&self) -> (r: &I)
        ensures
            *r == self.ink,
    {
        &self.ink
    }

    /// The box that the ink is displayed in, if given.
    pub fn bounding_box(&self) -> (r: Option<&B>)
        ensures
            match self.bounding_box {
                Some(b) => r matches Some(x) && *x == b,
                None => r is None,
            },
    {
        match &self.bounding_box {
            Some(b) => Some(b),
            None => None,
        }
    }
}

proof fn lemma_first_visible_is(runs: Seq<TextRun>, after: u32, f: int, i: int)
    requires
        0 <= i <= f < runs.len(),
        runs[f].end > after,
        runs[f].style.hyperlink && !runs[f].style.hidden,
        forall|k: int|
            0 <= k < f && #[trigger] runs[k].end > after ==> runs[k].style.hidden
                && runs[k].style.hyperlink,
    ensures
        first_visible_link(runs, after, i) == Some(f),
    decreases f - i,
{
    if i < f {
        lemma_first_visible_is(runs, after, f, i + 1);
    }
}

proof fn lemma_stretch_end(runs: Seq<TextRun>, k: int, j: int)
    requires
        0 <= k <= j < runs.len(),
        forall|i: int| k <= i <= j ==> #[trigger] runs[i].style.hyperlink && !runs[i].style.hidden,
        forall|i: int| k <= i < j ==> #[trigger] runs[i + 1].start == runs[i].end,
        j + 1 == runs.len() || runs[j + 1].start != runs[j].end || !runs[j + 1].style.hyperlink
            || runs[j + 1].style.hidden,
    ensures
        extend_end(runs, k + 1, runs[k].end) == runs[j].end,
    decreases j - k,
{
    if k < j {
        assert(runs[k + 1].start == runs[k].end);
        assert(runs[k + 1].style.hyperlink && !runs[k + 1].style.hidden);
        lemma_stretch_end(runs, k + 1, j);
    }
}

/// Hyperlink extraction is complete and takes in the whole visible text:
/// when the first marker found from `from` (at `ms`, its destination
/// ending at the quote at `te`) is covered only by hidden hyperlink runs,
/// and the first run after it that is not a hidden hyperlink run is a
/// visible hyperlink run `f`, the first link found is that destination,
/// from where the visible text starts to the end of the maximal stretch
/// `f..=j` of contiguous visible hyperlink runs, however many runs the
/// visible text is split into.
pub proof fn law_hyperlink_spans_contiguous_link_runs(
    s: Seq<char>,
    runs: Seq<TextRun>,
    from: int,
    ms: int,
    te: int,
    f: int,
    j: int,
)
    requires
        find_spec(s, HYPERLINK_MARKER@, from) == Some(ms),
        find_spec(s, seq!['"'], ms + HYPERLINK_MARKER@.len()) == Some(te),
        marker_is_hidden_link(runs, utf16_offset(s, ms), utf16_offset(s, te + 1)),
        0 <= f <= j < runs.len(),
        runs[f].end > utf16_offset(s, te + 1),
        forall|k: int|
            0 <= k < f && #[trigger] runs[k].end > utf16_offset(s, te + 1) ==> runs[k].style.hidden
                && runs[k].style.hyperlink,
        forall|i: int| f <= i <= j ==> #[trigger] runs[i].style.hyperlink && !runs[i].style.hidden,
        forall|i: int| f <= i < j ==> #[trigger] runs[i + 1].start == runs[i].end,
        j + 1 == runs.len() || runs[j + 1].start != runs[j].end || !runs[j + 1].style.hyperlink
            || runs[j + 1].style.hidden,
        ms + HYPERLINK_MARKER@.len() < te,
        (if runs[f].start > utf16_offset(s, te + 1) {
            runs[f].start
        } else {
            utf16_offset(s, te + 1)
        }) < runs[j].end,
    ensures
        hyperlinks_spec(s, runs, from).len() > 0,
        hyperlinks_spec(s, runs, from)[0] == (
            s.subrange(ms + HYPERLINK_MARKER@.len(), te),
            if runs[f].start > utf16_offset(s, te + 1) {
                runs[f].start
            } else {
                utf16_offset(s, te + 1)
            },
            runs[j].end,
        ),
{
    let b = utf16_offset(s, te + 1);
    lemma_first_visible_is(runs, b, f, 0);
    lemma_stretch_end(runs, f, j);
    lemma_find_after(s, HYPERLINK_MARKER@, from);
    lemma_find_after(s, seq!['"'], ms + HYPERLINK_MARKER@.len());
}

/// The object type of an ink space blob embedded in rich text.
pub const INK_SPACE_BLOB: u32 = 0x00020026u32;

/// The object type of an ink end-of-line blob embedded in rich text.
pub const INK_END_OF_LINE_BLOB: u32 = 0x00020027u32;

/// What an object embedded in a paragraph of rich text is.
#[derive(Debug, PartialEq, Eq, Structural, Clone, Copy)]
pub enum EmbeddedObjectKind {
    /// A line break in handwriting.
    InkLineBreak,
    /// A space in handwriting.
    InkSpace,
    /// Handwriting, whose strokes are in the object `object_ref`.
    Ink { object_ref: ExGuid },
}

/// The kind of the embedded object of type `object_type` (`None` for
/// handwriting) whose object reference, if there is one, is `object_ref`:
/// `None` for handwriting without a reference, which is dropped.
pub open spec fn embedded_kind(object_type: Option<u32>, object_ref: Option<ExGuid>) -> Result<
    Option<EmbeddedObjectKind>,
> {
    match object_type {
        Some(t) => if t == INK_END_OF_LINE_BLOB {
            Ok(Some(EmbeddedObjectKind::InkLineBreak))
        } else if t == INK_SPACE_BLOB {
            Ok(Some(EmbeddedObjectKind::InkSpace))
        } else {
            Err(Error { kind: ErrorKind::UnknownEmbeddedObjectType { object_type: t } })
        },
        None => match object_ref {
            Some(r) => Ok(Some(EmbeddedObjectKind::Ink { object_ref: r })),
            None => Ok(None),
        },
    }
}

/// The embedded objects of a paragraph from its `i`-th one on, when
/// `skipped` references have been passed over so far.
///
/// The `i`-th object takes the reference at position `i - skipped` of
/// `refs`, if there is one. Ink spaces and line breaks often come without
/// a reference of their own: one whose reference is valid, or that has
/// none, leaves that reference to the objects after it.
pub open spec fn embedded_from(
    types: Seq<Option<u32>>,
    refs: Seq<ExGuid>,
    valid: Seq<bool>,
    i: int,
    skipped: int,
) -> Result<Seq<EmbeddedObjectKind>>
    decreases types.len() - i,
{
    if i < 0 || i >= types.len() {
        Ok(seq![])
    } else {
        let j = i - skipped;
        let object_ref: Option<ExGuid> = if 0 <= j < refs.len() {
            Some(refs[j])
        } else {
            None
        };
        let ref_valid = if 0 <= j < refs.len() {
            valid[j]
        } else {
            true
        };
        let next_skipped = match types[i] {
            Some(t) => if ref_valid && (t == INK_END_OF_LINE_BLOB || t == INK_SPACE_BLOB) {
                skipped + 1
            } else {
                skipped
            },
            None => skipped,
        };
        match embedded_kind(types[i], object_ref) {
            Err(e) => Err(e),
            Ok(this) => match embedded_from(types, refs, valid, i + 1, next_skipped) {
                Err(e) => Err(e),
                Ok(rest) => Ok(
                    match this {
                        Some(k) => seq![k] + rest,
                        None => rest,
                    },
                ),
            },
        }
    }
}

/// The objects embedded in a paragraph of rich text, one for each run
/// that holds an embedded object (its type in `types`, `None` for
/// handwriting), paired with the paragraph's object references `refs`,
/// each of which is `ref_valid` if the object it names exists.
pub open spec fn embedded_objects_spec(
    types: Seq<Option<u32>>,
    refs: Seq<ExGuid>,
    valid: Seq<bool>,
) -> Result<Seq<EmbeddedObjectKind>> {
    embedded_from(types, refs, valid, 0, 0)
}

/// The entries of `front` put before the objects of the outcome `r`.
pub open spec fn objects_after(front: Seq<EmbeddedObjectKind>, r: Result<Seq<EmbeddedObjectKind>>) -> Result<
    Seq<EmbeddedObjectKind>,
> {
    match r {
        Ok(rest) => Ok(front + rest),
        Err(e) => Err(e),
    }
}

/// The objects embedded in a paragraph of rich text (see
/// [`embedded_objects_spec`]).
pub fn embedded_objects(types: &[Option<u32>], refs: &[ExGuid], ref_valid: &[bool]) -> (r: Result<
    Vec<EmbeddedObjectKind>,
>)
    requires
        refs@.len() == ref_valid@.len(),
    ensures
        match embedded_objects_spec(types@, refs@, ref_valid@) {
            Ok(s) => r matches Ok(v) && v@ == s,
            Err(e) => r == Err::<Vec<EmbeddedObjectKind>, Error>(e),
        },
{
    let mut objects: Vec<EmbeddedObjectKind> = Vec::new();
    let mut skipped: usize = 0;
    let mut i: usize = 0;
    while i < types.len()
        invariant
            refs@.len() == ref_valid@.len(),
            skipped <= i <= types@.len(),
            embedded_objects_spec(types@, refs@, ref_valid@) == objects_after(
                objects@,
                embedded_from(types@, refs@, ref_valid@, i as int, skipped as int),
            ),
        decreases types@.len() - i,
    {
        let j = i - skipped;
        let object_ref: Option<ExGuid> = if j < refs.len() {
            Some(refs[j])
        } else {
            None
        };
        let is_valid = if j < refs.len() {
            ref_valid[j]
        } else {
            true
        };
        let ghost before = objects@;
        let this: Option<EmbeddedObjectKind> = match types[i] {
            Some(t) => {
                if is_valid && (t == INK_END_OF_LINE_BLOB || t == INK_SPACE_BLOB) {
                    skipped = skipped + 1;
                }
                if t == INK_END_OF_LINE_BLOB {
                    Some(EmbeddedObjectKind::InkLineBreak)
                } else if t == INK_SPACE_BLOB {
                    Some(EmbeddedObjectKind::InkSpace)
                } else {
                    return Err(Error::new(ErrorKind::UnknownEmbeddedObjectType { object_type: t }));
                }
            },
            None => match object_ref {
                Some(r) => Some(EmbeddedObjectKind::Ink { object_ref: r }),
                None => None,
            },
        };
        proof {
            let tail = embedded_from(types@, refs@, ref_valid@, i + 1, skipped as int);
            match tail {
                Ok(t) => {
                    match this {
                        Some(k) => {
                            assert(before + (seq![k] + t) =~= before.push(k) + t);
                        },
                        None => {},
                    }
                },
                Err(_) => {},
            }
        }
        match this {
            Some(k) => objects.push(k),
            None => {},
        }
        i = i + 1;
    }
    proof {
        assert(objects@ + seq![] =~= objects@);
    }
    Ok(objects)
}

/// The positions of the runs that the first `m` of `flags` mark.
pub open spec fn flagged_runs(flags: Seq<bool>, m: int) -> Seq<int>
    decreases m,
{
    if m <= 0 {
        seq![]
    } else if flags[m - 1] {
        flagged_runs(flags, m - 1).push(m - 1)
    } else {
        flagged_runs(flags, m - 1)
    }
}

/// The positions of the text runs, of `run_count`, that are paired with a
/// style whose flag in `flags` is set: runs and styles are paired in
/// order, as far as both go. This picks the runs of a paragraph that hold
/// math or an embedded object.
pub fn paired_runs(run_count: usize, flags: &[bool]) -> (r: Vec<usize>)
    ensures
        r@.map_values(|k: usize| k as int) == flagged_runs(
            flags@,
            if run_count < flags@.len() {
                run_count as int
            } else {
                flags@.len() as int
            },
        ),
{
    let m = if run_count < flags.len() {
        run_count
    } else {
        flags.len()
    };
    let mut r: Vec<usize> = Vec::new();
    let mut k: usize = 0;
    while k < m
        invariant
            m <= flags@.len(),
            k <= m,
            r@.map_values(|x: usize| x as int) == flagged_runs(flags@, k as int),
        decreases m - k,
    {
        if flags[k] {
            let ghost before = r@;
            r.push(k);
            proof {
                assert(r@.map_values(|x: usize| x as int) =~= before.map_values(|x: usize| x as int).push(
                    k as int,
                ));
            }
        }
        k = k + 1;
    }
    r
}

proof fn lemma_handwriting_from(types: Seq<Option<u32>>, refs: Seq<ExGuid>, valid: Seq<bool>, i: int)
    requires
        0 <= i <= types.len(),
        forall|k: int| 0 <= k < types.len() ==> #[trigger] types[k] is None,
    ensures
        embedded_from(types, refs, valid, i, 0) == Ok::<Seq<EmbeddedObjectKind>, Error>(
            Seq::new(
                if types.len() < refs.len() {
                    (types.len() - i) as nat
                } else if refs.len() > i {
                    (refs.len() - i) as nat
                } else {
                    0
                },
                |k: int| EmbeddedObjectKind::Ink { object_ref: refs[i + k] },
            ),
        ),
    decreases types.len() - i,
{
    if i < types.len() {
        lemma_handwriting_from(types, refs, valid, i + 1);
        let rest = embedded_from(types, refs, valid, i + 1, 0)->Ok_0;
        assert(types[i] is None);
        assert(i - 0 == i);
        if i < refs.len() {
            assert(embedded_kind(types[i], Some(refs[i])) == Ok::<Option<EmbeddedObjectKind>, Error>(
                Some(EmbeddedObjectKind::Ink { object_ref: refs[i] }),
            ));
            assert(embedded_from(types, refs, valid, i, 0) == Ok::<Seq<EmbeddedObjectKind>, Error>(
                seq![EmbeddedObjectKind::Ink { object_ref: refs[i] }] + rest,
            ));
            assert(seq![EmbeddedObjectKind::Ink { object_ref: refs[i] }] + rest =~= Seq::new(
                if types.len() < refs.len() {
                    (types.len() - i) as nat
                } else {
                    (refs.len() - i) as nat
                },
                |k: int| EmbeddedObjectKind::Ink { object_ref: refs[i + k] },
            ));
        } else {
            assert(embedded_from(types, refs, valid, i, 0) == Ok::<Seq<EmbeddedObjectKind>, Error>(
                rest,
            ));
            assert(rest =~= Seq::<EmbeddedObjectKind>::empty());
            assert(Seq::new(0, |k: int| EmbeddedObjectKind::Ink { object_ref: refs[i + k] }) =~= Seq::<
                EmbeddedObjectKind,
            >::empty());
        }
    } else {
        assert(Seq::new(0, |k: int| EmbeddedObjectKind::Ink { object_ref: refs[i + k] }) =~= Seq::<
            EmbeddedObjectKind,
        >::empty());
    }
}

/// Handwriting takes the paragraph's object references in order: when
/// every embedded object is handwriting, object `k` refers to reference
/// `k`, for as many objects as there are references.
pub proof fn law_handwriting_takes_references_in_order(
    types: Seq<Option<u32>>,
    refs: Seq<ExGuid>,
    valid: Seq<bool>,
)
    requires
        forall|k: int| 0 <= k < types.len() ==> #[trigger] types[k] is None,
    ensures
        embedded_objects_spec(types, refs, valid) matches Ok(objects) && objects.len() == (
        if types.len() < refs.len() {
            types.len()
        } else {
            refs.len()
        }) && forall|k: int|
            0 <= k < objects.len() ==> #[trigger] objects[k] == (EmbeddedObjectKind::Ink {
                object_ref: refs[k],
            }),
{
    lemma_handwriting_from(types, refs, valid, 0);
}

proof fn lemma_unknown_type_from(
    types: Seq<Option<u32>>,
    refs: Seq<ExGuid>,
    valid: Seq<bool>,
    i: int,
    skipped: int,
    k: int,
    t: u32,
)
    requires
        0 <= i <= k < types.len(),
        types[k] == Some(t),
        t != INK_SPACE_BLOB && t != INK_END_OF_LINE_BLOB,
        forall|j: int|
            0 <= j < k ==> ((#[trigger] types[j]) matches Some(u) ==> u == INK_SPACE_BLOB || u
                == INK_END_OF_LINE_BLOB),
    ensures
        embedded_from(types, refs, valid, i, skipped) == Err::<Seq<EmbeddedObjectKind>, Error>(
            Error { kind: ErrorKind::UnknownEmbeddedObjectType { object_type: t } },
        ),
    decreases k - i,
{
    if i < k {
        let j = i - skipped;
        let ref_valid = if 0 <= j < refs.len() {
            valid[j]
        } else {
            true
        };
        let next_skipped = match types[i] {
            Some(u) => if ref_valid && (u == INK_END_OF_LINE_BLOB || u == INK_SPACE_BLOB) {
                skipped + 1
            } else {
                skipped
            },
            None => skipped,
        };
        lemma_unknown_type_from(types, refs, valid, i + 1, next_skipped, k, t);
    }
}

/// An embedded object of an unknown type is refused: the first object
/// whose type is neither handwriting, an ink space nor an ink line break
/// makes the whole paragraph fail with that type.
pub proof fn law_unknown_embedded_type_is_refused(
    types: Seq<Option<u32>>,
    refs: Seq<ExGuid>,
    valid: Seq<bool>,
    k: int,
    t: u32,
)
    requires
        0 <= k < types.len(),
        types[k] == Some(t),
        t != INK_SPACE_BLOB && t != INK_END_OF_LINE_BLOB,
        forall|j: int|
            0 <= j < k ==> ((#[trigger] types[j]) matches Some(u) ==> u == INK_SPACE_BLOB || u
                == INK_END_OF_LINE_BLOB),
    ensures
        embedded_objects_spec(types, refs, valid) == Err::<Seq<EmbeddedObjectKind>, Error>(
            Error { kind: ErrorKind::UnknownEmbeddedObjectType { object_type: t } },
        ),
{
    lemma_unknown_type_from(types, refs, valid, 0, 0, k, t);
}

} // verus!
