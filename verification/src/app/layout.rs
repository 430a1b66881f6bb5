//! How much fits: the window around a preview, rows of keys, a name in a row, and
//! the pages of a document.
use std::ops::Range;
use vstd::prelude::*;

use crate::browser;
use crate::content::{ListEntry, MetaField, PreviewContent, Span, StyledLine};
use crate::text::{self, chars_of, push_chars, push_str, same_chars, spells, string_of, trim};

verus! {

// ---------------------------------------------------------------------------
// The window
// ---------------------------------------------------------------------------
/// Whether a preview was laid out for a width, so that another width asks for
/// another. Only text is: a table is laid out by the window, and a picture or a
/// dump is the same at any width.
pub fn needs_relayout(content: &PreviewContent) -> (r: bool)
    ensures
        r == (*content is Text),
{
    match content {
        PreviewContent::Text { .. } => true,
        PreviewContent::Table { .. }
        | PreviewContent::Image { .. }
        | PreviewContent::Listing { .. }
        | PreviewContent::Metadata { .. }
        | PreviewContent::HexDump { .. } => false,
    }
}

/// What a window is fitted to.
#[derive(Debug, Clone, Copy, PartialEq, Eq, Structural)]
pub enum WindowSize {
    /// A width and a height, in half points.
    Halves { width: u32, height: u32 },
    /// A picture of this width and height, in pixels.
    Picture { width: u32, height: u32 },
}

/// How many characters a line has.
pub open spec fn line_chars(spans: Seq<Span>) -> nat
    decreases spans.len(),
{
    if spans.len() == 0 {
        0
    } else {
        line_chars(spans.drop_last()) + spans.last().text@.len()
    }
}

/// How many characters the longest of some lines has; `least` where none has more.
pub open spec fn longest_line(lines: Seq<StyledLine>, least: nat) -> nat
    decreases lines.len(),
{
    if lines.len() == 0 {
        least
    } else {
        let before = longest_line(lines.drop_last(), least);
        let n = line_chars(lines.last().spans@);
        if n > before {
            n
        } else {
            before
        }
    }
}

/// How many characters the longest of some names has; `least` where none has more.
pub open spec fn longest_name(entries: Seq<ListEntry>, least: nat) -> nat
    decreases entries.len(),
{
    if entries.len() == 0 {
        least
    } else {
        let before = longest_name(entries.drop_last(), least);
        let n = entries.last().name@.len();
        if n > before {
            n
        } else {
            before
        }
    }
}

/// How many characters wide a text is laid out.
pub open spec fn text_cols(lines: Seq<StyledLine>) -> int {
    if lines.len() == 0 {
        80
    } else {
        browser::clamped(longest_line(lines, 0) as int, 40, 120)
    }
}

/// How many characters wide a listing is laid out.
pub open spec fn listing_cols(entries: Seq<ListEntry>) -> int {
    if entries.len() == 0 {
        50
    } else {
        browser::clamped(longest_name(entries, 0) as int + 13, 40, 100)
    }
}

/// A window of `width` by `height` half points, no smaller and no larger than a
/// window may be.
pub open spec fn bounded(width: int, height: int) -> WindowSize {
    WindowSize::Halves {
        width: browser::clamped(width, 840, 2800) as u32,
        height: browser::clamped(height, 600, 1800) as u32,
    }
}

/// The window that suits a preview. A character takes 7.5 points, a line 17, and
/// the bars around the preview 72.
pub open spec fn suited(content: PreviewContent) -> WindowSize {
    match content {
        PreviewContent::Table { columns, rows, .. } => bounded(
            (browser::clamped(columns@.len() as int, 1, 10) * 13 + 6) * 15 + 80,
            (rows@.len() as int + 2) * 34 + 144,
        ),
        PreviewContent::Text { lines, .. } => bounded(
            text_cols(lines@) * 15 + 80,
            lines@.len() as int * 34 + 144,
        ),
        PreviewContent::Image { width, height, original_width, original_height, .. } => if 0
            < original_width && 0 < original_height {
            WindowSize::Picture { width: original_width, height: original_height }
        } else {
            WindowSize::Picture { width, height }
        },
        PreviewContent::Listing { entries } => bounded(
            listing_cols(entries@) * 15 + 80,
            entries@.len() as int * 34 + 144,
        ),
        PreviewContent::Metadata { fields, .. } => bounded(1120, fields@.len() as int * 44 + 664),
        PreviewContent::HexDump { data, .. } => bounded(
            1250,
            ((data@.len() as int + 15) / 16) * 34 + 144,
        ),
    }
}

fn bring(x: u128, low: u32, high: u32) -> (r: u32)
    requires
        low <= high,
    ensures
        r == browser::clamped(x as int, low as int, high as int),
{
    if x < low as u128 {
        low
    } else if x > high as u128 {
        high
    } else {
        x as u32
    }
}

fn halves(width: u128, height: u128) -> (r: WindowSize)
    ensures
        r == bounded(width as int, height as int),
{
    WindowSize::Halves { width: bring(width, 840, 2800), height: bring(height, 600, 1800) }
}

/// The smaller of two numbers.
pub open spec fn smaller(a: int, b: int) -> int {
    if a <= b {
        a
    } else {
        b
    }
}

/// How many characters a line has, as far as that matters.
fn chars_in(spans: &Vec<Span>, most: usize) -> (r: usize)
    requires
        most <= 1000,
    ensures
        r == smaller(line_chars(spans@) as int, most as int),
{
    let mut n: usize = 0;
    let mut i: usize = 0;
    assert(spans@.subrange(0, 0) =~= Seq::<Span>::empty());
    while i < spans.len()
        invariant
            i <= spans.len(),
            most <= 1000,
            n <= most,
            n == smaller(line_chars(spans@.subrange(0, i as int)) as int, most as int),
        decreases spans.len() - i,
    {
        let ghost upto = spans@.subrange(0, i + 1);
        assert(upto.drop_last() =~= spans@.subrange(0, i as int));
        let k: usize = chars_of(spans[i].text.as_str()).len();
        n = if k >= most - n {
            most
        } else {
            n + k
        };
        i = i + 1;
    }
    assert(spans@.subrange(0, spans@.len() as int) =~= spans@);
    n
}

fn columns_of_text(lines: &Vec<StyledLine>) -> (r: usize)
    ensures
        r == text_cols(lines@),
{
    if lines.len() == 0 {
        return 80;
    }
    let mut widest: usize = 0;
    let mut i: usize = 0;
    assert(lines@.subrange(0, 0) =~= Seq::<StyledLine>::empty());
    while i < lines.len()
        invariant
            i <= lines.len(),
            widest == smaller(longest_line(lines@.subrange(0, i as int), 0) as int, 120),
        decreases lines.len() - i,
    {
        let ghost upto = lines@.subrange(0, i + 1);
        assert(upto.drop_last() =~= lines@.subrange(0, i as int));
        let n = chars_in(&lines[i].spans, 120);
        if n > widest {
            widest = n;
        }
        i = i + 1;
    }
    assert(lines@.subrange(0, lines@.len() as int) =~= lines@);
    if widest < 40 {
        40
    } else {
        widest
    }
}

fn columns_of_listing(entries: &Vec<ListEntry>) -> (r: usize)
    ensures
        r == listing_cols(entries@),
{
    if entries.len() == 0 {
        return 50;
    }
    let mut widest: usize = 0;
    let mut i: usize = 0;
    assert(entries@.subrange(0, 0) =~= Seq::<ListEntry>::empty());
    while i < entries.len()
        invariant
            i <= entries.len(),
            widest == longest_name(entries@.subrange(0, i as int), 0),
        decreases entries.len() - i,
    {
        let ghost upto = entries@.subrange(0, i + 1);
        assert(upto.drop_last() =~= entries@.subrange(0, i as int));
        let n: usize = chars_of(entries[i].name.as_str()).len();
        if n > widest {
            widest = n;
        }
        i = i + 1;
    }
    assert(entries@.subrange(0, entries@.len() as int) =~= entries@);
    if widest < 27 {
        40
    } else if widest > 87 {
        100
    } else {
        widest + 13
    }
}

/// The window that suits a preview: the size that is asked for once, when the
/// preview arrives. A picture is scaled to the screen by whoever opens the window.
pub fn desired_size(content: &PreviewContent) -> (r: WindowSize)
    ensures
        r == suited(*content),
{
    match content {
        PreviewContent::Table { columns, rows, .. } => {
            let n: usize = columns.len();
            let cols: usize = if n < 1 {
                1
            } else if n > 10 {
                10
            } else {
                n
            };
            halves((cols as u128 * 13 + 6) * 15 + 80, (rows.len() as u128 + 2) * 34 + 144)
        },
        PreviewContent::Text { lines, .. } => {
            let cols = columns_of_text(lines);
            halves(cols as u128 * 15 + 80, lines.len() as u128 * 34 + 144)
        },
        PreviewContent::Image { width, height, original_width, original_height, .. } => {
            if *original_width > 0 && *original_height > 0 {
                WindowSize::Picture { width: *original_width, height: *original_height }
            } else {
                WindowSize::Picture { width: *width, height: *height }
            }
        },
        PreviewContent::Listing { entries } => {
            let cols = columns_of_listing(entries);
            halves(cols as u128 * 15 + 80, entries.len() as u128 * 34 + 144)
        },
        PreviewContent::Metadata { fields, .. } => halves(1120, fields.len() as u128 * 44 + 664),
        PreviewContent::HexDump { data, .. } => halves(
            1250,
            ((data.len() as u128 + 15) / 16) * 34 + 144,
        ),
    }
}

/// The window is never too small to use, nor larger than a screen.
pub proof fn law_a_window_has_a_sane_size(content: PreviewContent)
    ensures
        match suited(content) {
            WindowSize::Halves { width, height } => {
                &&& 840 <= width <= 2800
                &&& 600 <= height <= 1800
            },
            WindowSize::Picture { .. } => content is Image,
        },
{
}

// ---------------------------------------------------------------------------
// Rows of keys
// ---------------------------------------------------------------------------
/// Where the row that is `used` wide so far ends, of things from `i` on.
pub open spec fn row_end(widths: Seq<u32>, i: int, used: int, avail: u32, gap: u32) -> int
    decreases widths.len() - i,
{
    if 0 <= i < widths.len() && used + gap + widths[i] <= avail {
        row_end(widths, i + 1, used + gap + widths[i], avail, gap)
    } else {
        i
    }
}

/// The rows of things from `start` on: each takes as many as fit, and one at least.
pub open spec fn packed(widths: Seq<u32>, start: int, avail: u32, gap: u32) -> Seq<(int, int)>
    decreases widths.len() - start,
    via packed_shrinks
{
    if 0 <= start < widths.len() {
        let end = row_end(widths, start + 1, widths[start] as int, avail, gap);
        seq![(start, end)] + packed(widths, end, avail, gap)
    } else {
        Seq::empty()
    }
}

#[via_fn]
proof fn packed_shrinks(widths: Seq<u32>, start: int, avail: u32, gap: u32) {
    if 0 <= start < widths.len() {
        lemma_row_end(widths, start + 1, widths[start] as int, avail, gap);
    }
}

proof fn lemma_row_end(widths: Seq<u32>, i: int, used: int, avail: u32, gap: u32)
    requires
        0 <= i <= widths.len(),
    ensures
        i <= row_end(widths, i, used, avail, gap) <= widths.len(),
    decreases widths.len() - i,
{
    if i < widths.len() && used + gap + widths[i] <= avail {
        lemma_row_end(widths, i + 1, used + gap + widths[i], avail, gap);
    }
}

/// Rows by where they begin and end.
pub open spec fn bounds_of(rows: Seq<Range<usize>>) -> Seq<(int, int)> {
    Seq::new(rows.len(), |k: int| (rows[k].start as int, rows[k].end as int))
}

/// Packs things of these widths into rows no wider than `avail`, `gap` apart, in
/// order. A thing that is wider than a row still gets one.
pub fn break_rows(widths: &[u32], avail: u32, gap: u32) -> (r: Vec<Range<usize>>)
    ensures
        bounds_of(r@) == packed(widths@, 0, avail, gap),
{
    let mut rows: Vec<Range<usize>> = Vec::new();
    let mut start: usize = 0;
    let ghost all = packed(widths@, 0, avail, gap);
    assert(bounds_of(rows@) + all =~= all);
    while start < widths.len()
        invariant
            start <= widths.len(),
            all == packed(widths@, 0, avail, gap),
            bounds_of(rows@) + packed(widths@, start as int, avail, gap) == all,
        decreases widths.len() - start,
    {
        let mut used: u64 = widths[start] as u64;
        let mut i: usize = start + 1;
        while i < widths.len() && used + gap as u64 + widths[i] as u64 <= avail as u64
            invariant
                start < i <= widths.len(),
                used <= 0xffff_ffff,
                row_end(widths@, start + 1, widths@[start as int] as int, avail, gap) == row_end(
                    widths@,
                    i as int,
                    used as int,
                    avail,
                    gap,
                ),
            decreases widths.len() - i,
        {
            used = used + gap as u64 + widths[i] as u64;
            i = i + 1;
        }
        let ghost before = rows@;
        rows.push(start..i);
        assert(bounds_of(rows@) =~= bounds_of(before).push((start as int, i as int)));
        assert(bounds_of(rows@) + packed(widths@, i as int, avail, gap) =~= bounds_of(before) + (
        seq![(start as int, i as int)] + packed(widths@, i as int, avail, gap)));
        start = i;
    }
    assert(bounds_of(rows@) =~= all);
    rows
}

/// How wide the things from `start` to `end` are in a row.
pub open spec fn row_width(widths: Seq<u32>, start: int, end: int, gap: u32) -> int
    decreases end - start,
{
    if start >= end || start < 0 || end > widths.len() {
        0
    } else if end == start + 1 {
        widths[start] as int
    } else {
        row_width(widths, start, end - 1, gap) + gap + widths[end - 1]
    }
}

proof fn lemma_row_fits(widths: Seq<u32>, start: int, i: int, avail: u32, gap: u32)
    requires
        0 <= start < i <= widths.len(),
        i == start + 1 || row_width(widths, start, i, gap) <= avail,
    ensures
        ({
            let end = row_end(widths, i, row_width(widths, start, i, gap), avail, gap);
            &&& i <= end <= widths.len()
            &&& end == start + 1 || row_width(widths, start, end, gap) <= avail
            &&& end < widths.len() ==> row_width(widths, start, end + 1, gap) > avail
        }),
    decreases widths.len() - i,
{
    let used = row_width(widths, start, i, gap);
    if i < widths.len() && used + gap + widths[i] <= avail {
        assert(row_width(widths, start, i + 1, gap) == used + gap + widths[i]);
        lemma_row_fits(widths, start, i + 1, avail, gap);
    }
}

/// No row of several things is wider than there is room, the rows follow one
/// another, nothing is left out, and a row ends only where the next thing would
/// not have fitted.
pub proof fn law_rows_fit(widths: Seq<u32>, start: int, avail: u32, gap: u32)
    requires
        0 <= start <= widths.len(),
    ensures
        ({
            let rows = packed(widths, start, avail, gap);
            &&& rows.len() == 0 <==> start == widths.len()
            &&& rows.len() > 0 ==> rows[0].0 == start && rows.last().1 == widths.len()
            &&& forall|k: int|
                0 <= k < rows.len() ==> (#[trigger] rows[k]).0 < rows[k].1 <= widths.len() && (
                rows[k].1 == rows[k].0 + 1 || row_width(widths, rows[k].0, rows[k].1, gap) <= avail)
            &&& forall|k: int|
                0 <= k < rows.len() - 1 ==> (#[trigger] rows[k]).1 == rows[k + 1].0 && row_width(
                    widths,
                    rows[k].0,
                    rows[k].1 + 1,
                    gap,
                ) > avail
        }),
    decreases widths.len() - start,
{
    if start < widths.len() {
        lemma_row_fits(widths, start, start + 1, avail, gap);
        let end = row_end(widths, start + 1, widths[start] as int, avail, gap);
        law_rows_fit(widths, end, avail, gap);
        let rest = packed(widths, end, avail, gap);
        let rows = packed(widths, start, avail, gap);
        assert(rows =~= seq![(start, end)] + rest);
        if rest.len() > 0 {
            assert(rows.last() == rest.last());
        }
        assert forall|k: int| 0 <= k < rows.len() implies (#[trigger] rows[k]).0 < rows[k].1
            <= widths.len() && (rows[k].1 == rows[k].0 + 1 || row_width(
            widths,
            rows[k].0,
            rows[k].1,
            gap,
        ) <= avail) by {
            if k > 0 {
                assert(rows[k] == rest[k - 1]);
            }
        }
        assert forall|k: int| 0 <= k < rows.len() - 1 implies (#[trigger] rows[k]).1 == rows[k
            + 1].0 && row_width(widths, rows[k].0, rows[k].1 + 1, gap) > avail by {
            assert(rows[k + 1] == rest[k]);
            if k > 0 {
                assert(rows[k] == rest[k - 1]);
            }
        }
    }
}

// ---------------------------------------------------------------------------
// A name in a row
// ---------------------------------------------------------------------------
/// How many characters of a text of `len` are kept, where `fits` says how many
/// fit: the one more that was tried does not.
pub open spec fn cut_at<F: Fn(usize) -> bool>(len: int, fits: F, n: int) -> bool {
    &&& 0 <= n <= len
    &&& n > 0 ==> call_ensures(fits, (n as usize,), true)
    &&& n < len ==> call_ensures(fits, ((n + 1) as usize,), false)
}

/// `text`, cut to fit, with an ellipsis where it was cut. `whole` is whether all of
/// it fits, `room` whether there is room for more than the ellipsis, and `fits`
/// whether that many characters fit before it. It is asked of few numbers only.
pub fn elide<F: Fn(usize) -> bool>(text: &str, whole: bool, room: bool, fits: F) -> (r: String)
    requires
        forall|n: usize| 0 < n <= text@.len() ==> call_requires(fits, (n,)),
    ensures
        whole ==> r@ == text@,
        !whole && !room ==> r@ == "…"@,
        !whole && room ==> exists|n: int|
            #[trigger] cut_at(text@.len() as int, fits, n) && r@ == text@.take(n) + "…"@,
{
    if whole {
        return text.to_owned();
    }
    if !room {
        return "…".to_owned();
    }
    let cs = chars_of(text);
    let mut lo: usize = 0;
    let mut hi: usize = cs.len();
    while lo < hi
        invariant
            cs@ == text@,
            lo <= hi <= cs.len(),
            forall|n: usize| 0 < n <= text@.len() ==> call_requires(fits, (n,)),
            lo > 0 ==> call_ensures(fits, (lo,), true),
            hi < cs.len() ==> call_ensures(fits, ((hi + 1) as usize,), false),
        decreases hi - lo,
    {
        let half: usize = lo + (hi - lo) / 2;
        let mid: usize = if half > lo {
            half
        } else {
            lo + 1
        };
        if fits(mid) {
            lo = mid;
        } else {
            hi = mid - 1;
        }
    }
    let mut out: Vec<char> = Vec::new();
    push_chars(&mut out, vstd::slice::slice_subrange(cs.as_slice(), 0, lo));
    push_str(&mut out, "…");
    assert(out@ =~= text@.take(lo as int) + "…"@);
    assert(cut_at(text@.len() as int, fits, lo as int));
    string_of(out.as_slice())
}

// ---------------------------------------------------------------------------
// Pages
// ---------------------------------------------------------------------------
/// Where `pattern` first occurs in `s` from `from` on.
pub open spec fn occurs_at(s: Seq<char>, pattern: Seq<char>, from: int) -> Option<int>
    decreases s.len() + 1 - from,
{
    if from < 0 || from + pattern.len() > s.len() {
        None
    } else if s.subrange(from, from + pattern.len()) == pattern {
        Some(from)
    } else {
        occurs_at(s, pattern, from + 1)
    }
}

fn find_text(cs: &[char], pattern: &[char]) -> (r: Option<usize>)
    requires
        pattern.len() > 0,
    ensures
        r is None <==> occurs_at(cs@, pattern@, 0) is None,
        r is Some ==> occurs_at(cs@, pattern@, 0) == Some(r->0 as int) && r->0 + pattern.len()
            <= cs.len(),
{
    let mut i: usize = 0;
    let n: usize = cs.len();
    while i < n && pattern.len() <= n - i
        invariant
            n == cs.len(),
            pattern.len() > 0,
            i <= n,
            occurs_at(cs@, pattern@, 0) == occurs_at(cs@, pattern@, i as int),
        decreases n - i,
    {
        if same_chars(vstd::slice::slice_subrange(cs, i, i + pattern.len()), pattern) {
            return Some(i);
        }
        i = i + 1;
    }
    None
}

/// The value of a decimal digit.
pub open spec fn digit_value(c: char) -> int {
    c as int - '0' as int
}

/// Whether `s` is made of decimal digits.
pub open spec fn all_digits(s: Seq<char>) -> bool {
    forall|i: int| 0 <= i < s.len() ==> '0' <= #[trigger] s[i] <= '9'
}

/// The number that digits spell.
pub open spec fn digits_value(s: Seq<char>) -> int
    decreases s.len(),
{
    if s.len() == 0 {
        0
    } else {
        10 * digits_value(s.drop_last()) + digit_value(s.last())
    }
}

/// The number that a text spells: digits, with or without a plus sign before
/// them, of a number that is not too large.
pub open spec fn number(s: Seq<char>) -> Option<int> {
    let digits = if s.len() > 0 && s[0] == '+' {
        s.skip(1)
    } else {
        s
    };
    if digits.len() > 0 && all_digits(digits) && digits_value(digits) <= usize::MAX {
        Some(digits_value(digits))
    } else {
        None
    }
}

proof fn lemma_digits_grow(s: Seq<char>, n: int)
    requires
        all_digits(s),
        0 <= n <= s.len(),
    ensures
        0 <= digits_value(s.subrange(0, n)) <= digits_value(s),
    decreases s.len(),
{
    if s.len() > 0 {
        let init = s.drop_last();
        assert forall|i: int| 0 <= i < init.len() implies '0' <= #[trigger] init[i] <= '9' by {
            assert(init[i] == s[i]);
        }
        assert('0' <= s[s.len() - 1] <= '9');
        if n < s.len() {
            lemma_digits_grow(init, n);
            assert(init.subrange(0, n) =~= s.subrange(0, n));
        } else {
            lemma_digits_grow(init, 0);
            assert(init.subrange(0, 0) =~= Seq::<char>::empty());
            assert(s.subrange(0, n) =~= s);
        }
    } else {
        assert(s.subrange(0, n) =~= s);
    }
}

/// The number that a text spells.
pub fn parse_number(s: &[char]) -> (r: Option<usize>)
    ensures
        r is None <==> number(s@) is None,
        r is Some ==> number(s@) == Some(r->0 as int),
{
    let from: usize = if s.len() > 0 && s[0] == '+' {
        1
    } else {
        0
    };
    let digits = vstd::slice::slice_subrange(s, from, s.len());
    assert(digits@ =~= (if s@.len() > 0 && s@[0] == '+' {
        s@.skip(1)
    } else {
        s@
    }));
    if digits.len() == 0 {
        return None;
    }
    let mut v: usize = 0;
    let mut i: usize = 0;
    while i < digits.len()
        invariant
            i <= digits.len(),
            forall|k: int| 0 <= k < i ==> '0' <= #[trigger] digits@[k] <= '9',
            v == digits_value(digits@.subrange(0, i as int)),
            digits@ == (if s@.len() > 0 && s@[0] == '+' {
                s@.skip(1)
            } else {
                s@
            }),
        decreases digits.len() - i,
    {
        let c: char = digits[i];
        if c < '0' || c > '9' {
            assert(!all_digits(digits@)) by {
                assert(!('0' <= digits@[i as int] <= '9'));
            }
            return None;
        }
        let ghost upto = digits@.subrange(0, i + 1);
        assert(upto.drop_last() =~= digits@.subrange(0, i as int));
        let d: usize = crate::text::code_of(c) as usize - 48;
        if v > (usize::MAX - d) / 10 {
            proof {
                if all_digits(digits@) {
                    lemma_digits_grow(digits@, i + 1);
                }
            }
            return None;
        }
        v = 10 * v + d;
        i = i + 1;
    }
    assert(digits@.subrange(0, digits@.len() as int) =~= digits@);
    Some(v)
}

/// The page and the number of pages that `value` speaks of, as in `3 of 12`.
pub open spec fn page_in(value: Seq<char>) -> Option<(int, int)> {
    match occurs_at(value, " of "@, 0) {
        Some(at) => {
            let current = number(text::trimmed(value.take(at)));
            let total = number(text::trimmed(value.skip(at + 4)));
            if current is Some && total is Some && current->0 > 0 {
                Some((current->0 - 1, total->0))
            } else {
                None
            }
        },
        None => None,
    }
}

/// What the first fact about the page says.
pub open spec fn page_field(fields: Seq<MetaField>) -> Option<Seq<char>>
    decreases fields.len(),
{
    if fields.len() == 0 {
        None
    } else if fields[0].key@ == "page"@ {
        Some(fields[0].value@)
    } else {
        page_field(fields.drop_first())
    }
}

/// The page that a preview shows, counted from 0, and how many there are; nothing
/// where it is no document with pages.
pub open spec fn pages_of(content: PreviewContent) -> Option<(int, int)> {
    match content {
        PreviewContent::Image { fields, .. } => match page_field(fields@) {
            Some(value) => page_in(value),
            None => None,
        },
        _ => None,
    }
}

/// A pair of numbers.
pub open spec fn pair(p: Option<(usize, usize)>) -> Option<(int, int)> {
    match p {
        Some(p) => Some((p.0 as int, p.1 as int)),
        None => None,
    }
}

fn page_value(value: &str) -> (r: Option<(usize, usize)>)
    ensures
        pair(r) == page_in(value@),
{
    let cs = chars_of(value);
    let of = chars_of(" of ");
    proof {
        reveal_strlit(" of ");
    }
    match find_text(cs.as_slice(), of.as_slice()) {
        Some(at) => {
            let head = vstd::slice::slice_subrange(cs.as_slice(), 0, at);
            let tail = vstd::slice::slice_subrange(cs.as_slice(), at + 4, cs.len());
            assert(head@ =~= value@.take(at as int));
            assert(tail@ =~= value@.skip(at + 4));
            let current = parse_number(trim(head));
            let total = parse_number(trim(tail));
            match (current, total) {
                (Some(current), Some(total)) => if current > 0 {
                    Some((current - 1, total))
                } else {
                    None
                },
                _ => None,
            }
        },
        None => None,
    }
}

/// The page that a preview shows, counted from 0, and how many there are. It is
/// read from what is said of the document, so there is no page behind the last.
pub fn paged(content: &PreviewContent) -> (r: Option<(usize, usize)>)
    ensures
        pair(r) == pages_of(*content),
{
    match content {
        PreviewContent::Image { fields, .. } => {
            let mut i: usize = 0;
            assert(fields@.skip(0) =~= fields@);
            while i < fields.len()
                invariant
                    i <= fields.len(),
                    page_field(fields@) == page_field(fields@.skip(i as int)),
                    *content is Image,
                    content->Image_fields@ == fields@,
                decreases fields.len() - i,
            {
                assert(fields@.skip(i as int).drop_first() =~= fields@.skip(i + 1));
                let key = chars_of(fields[i].key.as_str());
                if spells(key.as_slice(), "page") {
                    return page_value(fields[i].value.as_str());
                }
                i = i + 1;
            }
            None
        },
        _ => None,
    }
}

/// The page that a turn of the wheel leads to, of `total` from `current`.
pub open spec fn turned(current: int, total: int, forward: bool) -> int {
    if forward {
        smaller(
            current + 1,
            if total > 0 {
                total - 1
            } else {
                0
            },
        )
    } else if current > 0 {
        current - 1
    } else {
        0
    }
}

/// The page that a turn of the wheel leads to; `None` where it stays.
pub fn next_page(current: usize, total: usize, forward: bool) -> (r: Option<usize>)
    requires
        current < usize::MAX,
    ensures
        r is None <==> turned(current as int, total as int, forward) == current,
        r is Some ==> r->0 == turned(current as int, total as int, forward),
{
    let next: usize = if forward {
        let last: usize = if total > 0 {
            total - 1
        } else {
            0
        };
        if current + 1 <= last {
            current + 1
        } else {
            last
        }
    } else if current > 0 {
        current - 1
    } else {
        0
    };
    if next == current {
        None
    } else {
        Some(next)
    }
}

/// A page that a document speaks of is one that can be counted.
pub proof fn lemma_page_below_max(content: PreviewContent)
    ensures
        pages_of(content) is Some ==> (match pages_of(content)->0 {
            (current, total) => 0 <= current < usize::MAX && 0 <= total <= usize::MAX,
        }),
{
    match content {
        PreviewContent::Image { fields, .. } => match page_field(fields@) {
            Some(value) => match occurs_at(value, " of "@, 0) {
                Some(at) => {
                    lemma_number_counts(text::trimmed(value.take(at)));
                    lemma_number_counts(text::trimmed(value.skip(at + 4)));
                },
                None => {},
            },
            None => {},
        },
        _ => {},
    }
}

proof fn lemma_number_counts(s: Seq<char>)
    ensures
        number(s) is Some ==> 0 <= number(s)->0 <= usize::MAX,
{
    let digits = if s.len() > 0 && s[0] == '+' {
        s.skip(1)
    } else {
        s
    };
    if number(s) is Some {
        lemma_digits_grow(digits, digits.len() as int);
    }
}

/// Turning pages never leaves the document, and a page forward and back is the
/// same page.
pub proof fn law_pages_stay_in_the_document(current: int, total: int, forward: bool)
    requires
        0 <= current < total,
    ensures
        0 <= turned(current, total, forward) < total,
        current + 1 < total ==> turned(turned(current, total, true), total, false) == current,
        current > 0 ==> turned(turned(current, total, false), total, true) == current,
{
}

// ---------------------------------------------------------------------------
// Laws
// ---------------------------------------------------------------------------
/// A line is as long as its spans are together.
pub proof fn law_a_line_is_as_long_as_its_spans(spans: Seq<Span>, span: Span)
    ensures
        line_chars(Seq::empty()) == 0,
        line_chars(spans.push(span)) == line_chars(spans) + span.text@.len(),
{
    assert(spans.push(span).drop_last() =~= spans);
}

/// The longest line is one of the lines, or what was asked for at least, and none is
/// longer.
pub proof fn law_no_line_is_longer(lines: Seq<StyledLine>, least: nat, i: int)
    ensures
        longest_line(lines, least) >= least,
        0 <= i < lines.len() ==> line_chars(lines[i].spans@) <= longest_line(lines, least),
        longest_line(lines, least) == least || exists|k: int|
            0 <= k < lines.len() && line_chars((#[trigger] lines[k]).spans@) == longest_line(
                lines,
                least,
            ),
    decreases lines.len(),
{
    if lines.len() > 0 {
        let before = lines.drop_last();
        law_no_line_is_longer(before, least, i);
        if 0 <= i < before.len() {
            assert(before[i] == lines[i]);
        }
        if longest_line(lines, least) == longest_line(before, least) {
            if longest_line(before, least) != least {
                let k = choose|k: int|
                    0 <= k < before.len() && line_chars((#[trigger] before[k]).spans@)
                        == longest_line(before, least);
                assert(lines[k] == before[k]);
            }
        } else {
            assert(lines[lines.len() - 1] == lines.last());
        }
    }
}

/// The longest name is one of the names, or what was asked for at least, and none is
/// longer.
pub proof fn law_no_name_is_longer(entries: Seq<ListEntry>, least: nat, i: int)
    ensures
        longest_name(entries, least) >= least,
        0 <= i < entries.len() ==> entries[i].name@.len() <= longest_name(entries, least),
        longest_name(entries, least) == least || exists|k: int|
            0 <= k < entries.len() && (#[trigger] entries[k]).name@.len() == longest_name(
                entries,
                least,
            ),
    decreases entries.len(),
{
    if entries.len() > 0 {
        let before = entries.drop_last();
        law_no_name_is_longer(before, least, i);
        if 0 <= i < before.len() {
            assert(before[i] == entries[i]);
        }
        if longest_name(entries, least) == longest_name(before, least) {
            if longest_name(before, least) != least {
                let k = choose|k: int|
                    0 <= k < before.len() && (#[trigger] before[k]).name@.len() == longest_name(
                        before,
                        least,
                    );
                assert(entries[k] == before[k]);
            }
        } else {
            assert(entries[entries.len() - 1] == entries.last());
        }
    }
}

/// A window for text is as wide as its longest line, from 40 characters up to 120, and
/// as high as its lines, as far as a window may be.
pub proof fn law_a_window_fits_its_text(lines: Seq<StyledLine>)
    ensures
        lines.len() == 0 ==> text_cols(lines) == 80,
        lines.len() > 0 ==> 40 <= text_cols(lines) <= 120,
        lines.len() > 0 && 40 <= longest_line(lines, 0) <= 120 ==> text_cols(lines)
            == longest_line(lines, 0),
        lines.len() > 0 && longest_line(lines, 0) < 40 ==> text_cols(lines) == 40,
        lines.len() > 0 && longest_line(lines, 0) > 120 ==> text_cols(lines) == 120,
{
}

/// A window for a listing is as wide as its longest name with the column of sizes, from
/// 40 characters up to 100.
pub proof fn law_a_window_fits_its_listing(entries: Seq<ListEntry>)
    ensures
        entries.len() == 0 ==> listing_cols(entries) == 50,
        entries.len() > 0 ==> 40 <= listing_cols(entries) <= 100,
        entries.len() > 0 && 27 <= longest_name(entries, 0) <= 87 ==> listing_cols(entries)
            == longest_name(entries, 0) + 13,
        entries.len() > 0 && longest_name(entries, 0) < 27 ==> listing_cols(entries) == 40,
        entries.len() > 0 && longest_name(entries, 0) > 87 ==> listing_cols(entries) == 100,
{
}

/// A character takes seven and a half points, a line seventeen, and what is around the
/// preview forty and seventy-two, wherever that is neither too small nor too large for
/// a window; a picture is fitted to its size in the file where that is known.
pub proof fn law_a_window_suits_its_preview(content: PreviewContent)
    ensures
        match content {
            PreviewContent::Text { lines, .. } => {
                let width = suited(content)->Halves_width;
                let height = suited(content)->Halves_height;
                &&& suited(content) is Halves
                &&& width == (if text_cols(lines@) < 51 {
                    840
                } else {
                    15 * text_cols(lines@) + 80
                })
                &&& 14 <= lines@.len() <= 48 ==> height == 34 * lines@.len() + 144
                &&& lines@.len() < 14 ==> height == 600
                &&& lines@.len() > 48 ==> height == 1800
            },
            PreviewContent::Listing { entries } => {
                let width = suited(content)->Halves_width;
                let height = suited(content)->Halves_height;
                &&& suited(content) is Halves
                &&& width == (if listing_cols(entries@) < 51 {
                    840
                } else {
                    15 * listing_cols(entries@) + 80
                })
                &&& 14 <= entries@.len() <= 48 ==> height == 34 * entries@.len() + 144
                &&& entries@.len() < 14 ==> height == 600
                &&& entries@.len() > 48 ==> height == 1800
            },
            PreviewContent::Table { columns, rows, .. } => {
                let width = suited(content)->Halves_width;
                let height = suited(content)->Halves_height;
                &&& suited(content) is Halves
                &&& columns@.len() <= 3 ==> width == 840
                &&& 4 <= columns@.len() <= 10 ==> width == 195 * columns@.len() + 170
                &&& columns@.len() > 10 ==> width == 2120
                &&& 12 <= rows@.len() <= 46 ==> height == 34 * rows@.len() + 212
                &&& rows@.len() < 12 ==> height == 600
                &&& rows@.len() > 46 ==> height == 1800
            },
            PreviewContent::Metadata { fields, .. } => {
                &&& suited(content) is Halves
                &&& suited(content)->Halves_width == 1120
                &&& fields@.len() <= 25 ==> suited(content)->Halves_height == 664 + 44
                    * fields@.len()
                &&& fields@.len() > 25 ==> suited(content)->Halves_height == 1800
            },
            PreviewContent::HexDump { data, .. } => {
                &&& suited(content) is Halves
                &&& suited(content)->Halves_width == 1250
                &&& data@.len() <= 208 ==> suited(content)->Halves_height == 600
                &&& data@.len() > 768 ==> suited(content)->Halves_height == 1800
                &&& 208 < data@.len() <= 768 ==> 0 <= 16 * (suited(content)->Halves_height - 144)
                    - 34 * data@.len() < 34 * 16
            },
            PreviewContent::Image { width, height, original_width, original_height, .. } => {
                &&& suited(content) is Picture
                &&& original_width > 0 && original_height > 0 ==> suited(content)->Picture_width
                    == original_width && suited(content)->Picture_height == original_height
                &&& original_width == 0 || original_height == 0 ==> suited(content)->Picture_width
                    == width && suited(content)->Picture_height == height
            },
        },
{
    match content {
        PreviewContent::Text { lines, .. } => {
            law_a_window_fits_its_text(lines@);
        },
        PreviewContent::Listing { entries } => {
            law_a_window_fits_its_listing(entries@);
        },
        _ => {},
    }
}

/// A text is found where it first stands: it stands there, and nowhere before.
pub proof fn law_a_text_is_found_where_it_first_stands(s: Seq<char>, pattern: Seq<char>, from: int)
    requires
        0 <= from,
    ensures
        match occurs_at(s, pattern, from) {
            Some(i) => {
                &&& from <= i <= s.len() - pattern.len()
                &&& s.subrange(i, i + pattern.len()) == pattern
                &&& forall|k: int|
                    from <= k < i ==> #[trigger] s.subrange(k, k + pattern.len()) != pattern
            },
            None => forall|k: int|
                from <= k <= s.len() - pattern.len() ==> #[trigger] s.subrange(
                    k,
                    k + pattern.len(),
                ) != pattern,
        },
    decreases s.len() + 1 - from,
{
    if from + pattern.len() <= s.len() && s.subrange(from, from + pattern.len()) != pattern {
        law_a_text_is_found_where_it_first_stands(s, pattern, from + 1);
    }
}

proof fn lemma_digits_read(s: Seq<char>)
    requires
        all_digits(s),
    ensures
        digits_value(s) == text::read_as(s, 10),
    decreases s.len(),
{
    if s.len() > 0 {
        let init = s.drop_last();
        assert forall|i: int| 0 <= i < init.len() implies '0' <= #[trigger] init[i] <= '9' by {
            assert(init[i] == s[i]);
        }
        assert('0' <= s[s.len() - 1] <= '9');
        lemma_digits_read(init);
    }
}

/// A number is read back from how it is written, with or without a plus sign; what
/// holds anything but digits is no number.
pub proof fn law_a_number_reads_back(n: nat)
    requires
        n <= usize::MAX,
    ensures
        number(text::decimal(n)) == Some(n as int),
        number(seq!['+'] + text::decimal(n)) == Some(n as int),
{
    text::law_a_decimal_reads_back(n);
    let s = text::decimal(n);
    lemma_digits_read(s);
    assert('0' <= s[0] <= '9');
    let t = seq!['+'] + s;
    assert(t.skip(1) =~= s);
}

/// What holds anything but digits, behind one plus sign at most, is no number, and
/// neither is nothing.
pub proof fn law_what_is_not_digits_is_no_number(s: Seq<char>, i: int)
    requires
        s.len() == 0 || 0 <= i < s.len() && !('0' <= s[i] <= '9') && (i > 0 || s[i] != '+'),
    ensures
        number(s) is None,
{
    if s.len() > 0 && s[0] == '+' {
        assert(s.skip(1)[i - 1] == s[i]);
    }
}

proof fn lemma_no_of(a: Seq<char>, b: Seq<char>)
    requires
        all_digits(a),
    ensures
        occurs_at(a + " of "@ + b, " of "@, 0) == Some(a.len() as int),
{
    reveal_strlit(" of ");
    let s = a + " of "@ + b;
    law_a_text_is_found_where_it_first_stands(s, " of "@, 0);
    let n = a.len() as int;
    assert(s.subrange(n, n + 4) =~= " of "@);
    let found = occurs_at(s, " of "@, 0);
    assert(n <= s.len() - " of "@.len());
    if found is Some && found->0 < n {
        let i = found->0;
        assert(s.subrange(i, i + 4)[0] == " of "@[0]);
        assert(s[i] == a[i]);
    }
}

/// The pages of a document are read from what is said of them: the page is counted from
/// nought, and there is none before the first.
pub proof fn law_pages_are_read(page: nat, total: nat)
    requires
        page <= usize::MAX,
        total <= usize::MAX,
    ensures
        page > 0 ==> page_in(text::decimal(page) + " of "@ + text::decimal(total)) == Some(
            (page - 1, total as int),
        ),
        page == 0 ==> page_in(text::decimal(page) + " of "@ + text::decimal(total)) is None,
{
    reveal_strlit(" of ");
    let a = text::decimal(page);
    let b = text::decimal(total);
    text::law_a_decimal_reads_back(page);
    text::law_a_decimal_reads_back(total);
    law_a_number_reads_back(page);
    law_a_number_reads_back(total);
    lemma_no_of(a, b);
    let s = a + " of "@ + b;
    assert(s.take(a.len() as int) =~= a);
    assert(s.skip(a.len() as int + 4) =~= b);
    let none = Seq::<char>::empty();
    assert('0' <= a[0] <= '9' && '0' <= a[a.len() - 1] <= '9');
    assert('0' <= b[0] <= '9' && '0' <= b[b.len() - 1] <= '9');
    text::law_space_and_case_are_set_aside(none, a, none);
    text::law_space_and_case_are_set_aside(none, b, none);
    assert(none + a + none =~= a);
    assert(none + b + none =~= b);
}

/// Of several facts the first one about the page counts.
pub proof fn law_the_first_fact_about_the_page_counts(field: MetaField, rest: Seq<MetaField>)
    ensures
        page_field(Seq::empty()) is None,
        field.key@ == "page"@ ==> page_field(seq![field] + rest) == Some(field.value@),
        field.key@ != "page"@ ==> page_field(seq![field] + rest) == page_field(rest),
{
    assert((seq![field] + rest).drop_first() =~= rest);
}

/// Only a picture has pages, and it has those that its facts speak of.
pub proof fn law_only_pictures_have_pages(content: PreviewContent)
    ensures
        content !is Image ==> pages_of(content) is None,
        content is Image && page_field(content->Image_fields@) is None ==> pages_of(content) is None,
        content is Image && page_field(content->Image_fields@) is Some ==> pages_of(content)
            == page_in(page_field(content->Image_fields@)->0),
{
}

/// A turn of the wheel leads one page on or one page back, and stays where there is
/// no page left on that side.
pub proof fn law_the_wheel_turns_one_page(current: int, total: int)
    requires
        0 <= current < total,
    ensures
        current + 1 < total ==> turned(current, total, true) == current + 1,
        current + 1 == total ==> turned(current, total, true) == current,
        current > 0 ==> turned(current, total, false) == current - 1,
        turned(0, total, false) == 0,
{
}

/// No window is smaller than 420 by 300 points or larger than 1400 by 900; one between
/// these is as large as what is in it asks for. Sizes are in half points.
pub proof fn law_windows_have_their_bounds(width: int, height: int)
    ensures
        bounded(width, height) is Halves,
        840 <= bounded(width, height)->Halves_width <= 2800,
        600 <= bounded(width, height)->Halves_height <= 1800,
        840 <= width <= 2800 ==> bounded(width, height)->Halves_width == width,
        600 <= height <= 1800 ==> bounded(width, height)->Halves_height == height,
        width > 2800 ==> bounded(width, height)->Halves_width == 2800,
        height > 1800 ==> bounded(width, height)->Halves_height == 1800,
        width < 840 ==> bounded(width, height)->Halves_width == 840,
        height < 600 ==> bounded(width, height)->Halves_height == 600,
{
}

} // verus!
