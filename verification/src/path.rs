//! File paths, as the bytes they are.
//!
//! A path is a run of bytes, not text: a file name need not be UTF-8. What a
//! path means is decided by its components, so `/a//b/` and `/a/./b` name the
//! same file and compare equal. Which bytes part the components, and what may
//! stand before the first of them, is decided by the platform the path is of.
use vstd::prelude::*;
use vstd::utf8;

use crate::config::Platform;
use crate::text::{self, lossy, utf8};

verus! {

/// The byte `/`.
pub const SLASH: u8 = 0x2f;

/// The byte `\`.
pub const BACKSLASH: u8 = 0x5c;

/// The byte `.`.
pub const DOT: u8 = 0x2e;

/// The byte `:`.
pub const COLON: u8 = 0x3a;

/// The byte `?`.
pub const QUESTION: u8 = 0x3f;

/// A file path.
#[derive(Debug)]
pub struct FilePath {
    bytes: Vec<u8>,
    platform: Platform,
}

/// A [`FilePath`]: the platform it is of, and its bytes.
#[verifier::ext_equal]
pub struct PathView {
    pub platform: Platform,
    pub bytes: Seq<u8>,
}

impl PathView {
    /// A path of Unix.
    pub open spec fn unix(bytes: Seq<u8>) -> PathView {
        PathView { platform: Platform::Unix, bytes }
    }

    /// The empty path, which stands for none.
    pub open spec fn none() -> PathView {
        PathView::unix(Seq::empty())
    }

    /// Another path of the same platform.
    pub open spec fn with(self, bytes: Seq<u8>) -> PathView {
        PathView { platform: self.platform, bytes }
    }

    /// How many bytes the path has.
    pub open spec fn len(self) -> nat {
        self.bytes.len()
    }
}

impl View for FilePath {
    type V = PathView;

    closed spec fn view(&self) -> PathView {
        PathView { platform: self.platform, bytes: self.bytes@ }
    }
}

// ---------------------------------------------------------------------------
// What stands before the components
// ---------------------------------------------------------------------------
/// Which bytes part components.
#[derive(Debug, Clone, Copy, PartialEq, Eq, Structural)]
pub enum Seps {
    /// `/`: on Unix.
    Slash,
    /// `/` and `\`: on Windows.
    Either,
    /// `\`: on Windows, in a path that is to be taken as it is written.
    Backslash,
}

/// Whether `x` parts components.
pub open spec fn is_sep(w: Seps, x: u8) -> bool {
    match w {
        Seps::Slash => x == SLASH,
        Seps::Either => x == SLASH || x == BACKSLASH,
        Seps::Backslash => x == BACKSLASH,
    }
}

/// Where the component that `i` stands in ends.
pub open spec fn component_end(w: Seps, b: Seq<u8>, i: int) -> int
    decreases b.len() - i,
{
    if i < 0 || i >= b.len() {
        b.len() as int
    } else if is_sep(w, b[i]) {
        i
    } else {
        component_end(w, b, i + 1)
    }
}

/// What a path of Windows may begin with.
#[derive(Debug, Clone, Copy, PartialEq, Eq, Structural)]
pub enum PrefixKind {
    /// Nothing: `a\b`, and every path of Unix.
    Nothing,
    /// `\\?\name`, behind which everything is taken as it is written.
    Verbatim,
    /// `\\?\UNC\server\share`.
    VerbatimUnc,
    /// `\\?\C:`.
    VerbatimDisk,
    /// `\\.\name`.
    Device,
    /// `\\server\share`.
    Unc,
    /// `C:`.
    Disk,
}

/// What a path begins with: its kind, and the one or two names in it. The name of a
/// disk is its letter in upper case.
#[verifier::ext_equal]
pub struct PrefixView {
    pub kind: PrefixKind,
    pub first: Seq<u8>,
    pub second: Seq<u8>,
}

impl PrefixView {
    /// No prefix.
    pub open spec fn nothing() -> PrefixView {
        PrefixView { kind: PrefixKind::Nothing, first: Seq::empty(), second: Seq::empty() }
    }

    /// A prefix with one name in it.
    pub open spec fn one(kind: PrefixKind, first: Seq<u8>) -> PrefixView {
        PrefixView { kind, first, second: Seq::empty() }
    }

    /// How many bytes of the path it takes.
    pub open spec fn len(self) -> int {
        let second = if self.second.len() > 0 {
            1 + self.second.len() as int
        } else {
            0
        };
        match self.kind {
            PrefixKind::Nothing => 0,
            PrefixKind::Verbatim => 4 + self.first.len() as int,
            PrefixKind::VerbatimUnc => 8 + self.first.len() as int + second,
            PrefixKind::VerbatimDisk => 6,
            PrefixKind::Device => 4 + self.first.len() as int,
            PrefixKind::Unc => 2 + self.first.len() as int + second,
            PrefixKind::Disk => 2,
        }
    }

    /// Whether what follows is taken as it is written.
    pub open spec fn verbatim(self) -> bool {
        self.kind == PrefixKind::Verbatim || self.kind == PrefixKind::VerbatimUnc || self.kind
            == PrefixKind::VerbatimDisk
    }
}

/// Whether `x` is an ASCII letter.
pub open spec fn is_letter(x: u8) -> bool {
    0x41 <= x <= 0x5a || 0x61 <= x <= 0x7a
}

/// An ASCII letter in upper case.
pub open spec fn upper(x: u8) -> u8 {
    if 0x61 <= x <= 0x7a {
        (x - 32) as u8
    } else {
        x
    }
}

/// Whether a letter and a colon stand at `i`.
pub open spec fn drive_at(b: Seq<u8>, i: int) -> bool {
    0 <= i && i + 1 < b.len() && is_letter(b[i]) && b[i + 1] == COLON
}

/// The two names that stand one behind the other from `i` on.
pub open spec fn two_names(kind: PrefixKind, w: Seps, b: Seq<u8>, i: int) -> PrefixView {
    let e = component_end(w, b, i);
    let s = if e < b.len() {
        e + 1
    } else {
        e
    };
    PrefixView { kind, first: b.subrange(i, e), second: b.subrange(s, component_end(w, b, s)) }
}

/// What the bytes of a path of Windows begin with.
pub open spec fn windows_prefix(b: Seq<u8>) -> PrefixView {
    let n = b.len();
    if n >= 2 && is_sep(Seps::Either, b[0]) && is_sep(Seps::Either, b[1]) {
        if n >= 4 && b[0] == BACKSLASH && b[1] == BACKSLASH && b[2] == QUESTION && b[3]
            == BACKSLASH {
            if n >= 8 && b[4] == 0x55 && b[5] == 0x4e && b[6] == 0x43 && is_sep(
                Seps::Either,
                b[7],
            ) {
                two_names(PrefixKind::VerbatimUnc, Seps::Backslash, b, 8)
            } else if drive_at(b, 4) && (n == 6 || is_sep(Seps::Either, b[6])) {
                PrefixView::one(PrefixKind::VerbatimDisk, seq![upper(b[4])])
            } else {
                PrefixView::one(
                    PrefixKind::Verbatim,
                    b.subrange(4, component_end(Seps::Backslash, b, 4)),
                )
            }
        } else if n >= 4 && b[2] == DOT && is_sep(Seps::Either, b[3]) {
            PrefixView::one(
                PrefixKind::Device,
                b.subrange(4, component_end(Seps::Either, b, 4)),
            )
        } else {
            let unc = two_names(PrefixKind::Unc, Seps::Either, b, 2);
            if unc.first.len() > 0 && unc.second.len() > 0 {
                unc
            } else {
                PrefixView::nothing()
            }
        }
    } else if drive_at(b, 0) {
        PrefixView::one(PrefixKind::Disk, seq![upper(b[0])])
    } else {
        PrefixView::nothing()
    }
}

/// What the path begins with.
pub open spec fn prefix_of(p: PathView) -> PrefixView {
    match p.platform {
        Platform::Unix => PrefixView::nothing(),
        Platform::Windows => windows_prefix(p.bytes),
    }
}

/// Which bytes part the components of the path.
pub open spec fn seps_of(p: PathView) -> Seps {
    match p.platform {
        Platform::Unix => Seps::Slash,
        Platform::Windows => if prefix_of(p).verbatim() {
            Seps::Backslash
        } else {
            Seps::Either
        },
    }
}

/// Which bytes part components on a platform.
pub open spec fn usual_seps(platform: Platform) -> Seps {
    match platform {
        Platform::Unix => Seps::Slash,
        Platform::Windows => Seps::Either,
    }
}

/// Whether a separator stands right behind the prefix.
pub open spec fn root_written(p: PathView) -> bool {
    let n = prefix_of(p).len();
    0 <= n < p.len() && is_sep(usual_seps(p.platform), p.bytes[n])
}

/// Whether the path starts at the root of something: a share or a device has its root
/// written or not.
pub open spec fn rooted(p: PathView) -> bool {
    let kind = prefix_of(p).kind;
    root_written(p) || kind == PrefixKind::Unc || kind == PrefixKind::Device
}

/// Whether the path means the same whatever the working directory.
pub open spec fn absolute(p: PathView) -> bool {
    let kind = prefix_of(p).kind;
    match p.platform {
        Platform::Unix => root_written(p),
        Platform::Windows => kind != PrefixKind::Nothing && (root_written(p) || kind
            != PrefixKind::Disk),
    }
}

/// Where the components begin.
pub open spec fn body(p: PathView) -> int {
    prefix_of(p).len() + (if root_written(p) {
        1int
    } else {
        0
    })
}

// ---------------------------------------------------------------------------
// What a path is made of
// ---------------------------------------------------------------------------
/// Whether a `.` that says nothing stands at `i`: any but one that opens the path.
/// Where a path is taken as it is written, every `.` is a name.
pub open spec fn idle_dot(w: Seps, b: Seq<u8>, i: int) -> bool {
    w != Seps::Backslash && 0 < i < b.len() && b[i] == DOT && (i + 1 == b.len() || is_sep(
        w,
        b[i + 1],
    ))
}

/// Where the component that starts at or after `i` starts; the length where
/// there is none. `i` stands at a separator or just behind one.
pub open spec fn component_start(w: Seps, b: Seq<u8>, i: int) -> int
    decreases b.len() - i,
{
    if i < 0 || i >= b.len() {
        b.len() as int
    } else if is_sep(w, b[i]) || idle_dot(w, b, i) {
        component_start(w, b, i + 1)
    } else {
        i
    }
}

proof fn lemma_component_start(w: Seps, b: Seq<u8>, i: int)
    requires
        0 <= i <= b.len(),
    ensures
        i <= component_start(w, b, i) <= b.len(),
        component_start(w, b, i) < b.len() ==> !is_sep(w, b[component_start(w, b, i)]),
    decreases b.len() - i,
{
    if i < b.len() && (is_sep(w, b[i]) || idle_dot(w, b, i)) {
        lemma_component_start(w, b, i + 1);
    }
}

proof fn lemma_component_end(w: Seps, b: Seq<u8>, i: int)
    requires
        0 <= i <= b.len(),
    ensures
        i <= component_end(w, b, i) <= b.len(),
        i < b.len() && !is_sep(w, b[i]) ==> i < component_end(w, b, i),
    decreases b.len() - i,
{
    if i < b.len() && !is_sep(w, b[i]) {
        lemma_component_end(w, b, i + 1);
    }
}

/// The spans of the components of `b` from `i` on.
pub open spec fn spans_from(w: Seps, b: Seq<u8>, i: int) -> Seq<(int, int)>
    decreases b.len() - i,
{
    let s = component_start(w, b, i);
    let e = component_end(w, b, s);
    if 0 <= i <= s < e <= b.len() {
        seq![(s, e)] + spans_from(w, b, e)
    } else {
        Seq::empty()
    }
}

/// The spans of the components of the path.
pub open spec fn spans(p: PathView) -> Seq<(int, int)> {
    spans_from(seps_of(p), p.bytes, body(p))
}

/// The components of the path: the names between the separators, without the `.`
/// that say nothing.
pub open spec fn names(p: PathView) -> Seq<Seq<u8>> {
    Seq::new(spans(p).len(), |i: int| p.bytes.subrange(spans(p)[i].0, spans(p)[i].1))
}

/// Whether two paths are the same, component by component.
pub open spec fn same_path(a: PathView, b: PathView) -> bool {
    &&& a.platform == b.platform
    &&& prefix_of(a) == prefix_of(b)
    &&& rooted(a) == rooted(b)
    &&& names(a) == names(b)
}

/// The path inside an optional one.
pub open spec fn opt_path(o: Option<FilePath>) -> Option<PathView> {
    match o {
        Some(p) => Some(p@),
        None => None,
    }
}

/// The paths of `v`, in order.
pub open spec fn path_bytes(v: Seq<FilePath>) -> Seq<PathView> {
    Seq::new(v.len(), |i: int| v[i]@)
}

/// The bytes of each run of `v`, in order.
pub open spec fn runs(v: Seq<Vec<u8>>) -> Seq<Seq<u8>> {
    Seq::new(v.len(), |i: int| v[i]@)
}

/// `names`, one behind the other, with a `\` before each.
pub open spec fn behind_each(names: Seq<Seq<u8>>) -> Seq<u8>
    decreases names.len(),
{
    if names.len() == 0 {
        Seq::empty()
    } else {
        behind_each(names.drop_last()) + seq![BACKSLASH] + names.last()
    }
}

/// Whether a component is the name of a file.
pub open spec fn plain(name: Seq<u8>) -> bool {
    name != seq![DOT] && name != seq![DOT, DOT]
}

/// The components `base` with those of `more` behind them, where a `..` takes the name
/// before it away.
pub open spec fn walked(base: Seq<Seq<u8>>, more: Seq<Seq<u8>>) -> Seq<Seq<u8>>
    decreases more.len(),
{
    if more.len() == 0 {
        base
    } else {
        let before = walked(base, more.drop_last());
        let name = more.last();
        if name == seq![DOT] {
            before
        } else if name == seq![DOT, DOT] {
            if before.len() > 0 && plain(before.last()) {
                before.drop_last()
            } else {
                before
            }
        } else {
            before.push(name)
        }
    }
}

/// A path that is taken as it is written, with another behind it: it is written anew,
/// since nothing would read a `.` or a `..` in it.
pub open spec fn verbatim_joined(p: PathView, q: PathView) -> Seq<u8> {
    let base = if rooted(q) {
        Seq::empty()
    } else {
        names(p)
    };
    let all = walked(base, names(q));
    p.bytes.subrange(0, prefix_of(p).len()) + (if all.len() == 0 && (rooted(p) || rooted(q)) {
        seq![BACKSLASH]
    } else {
        behind_each(all)
    })
}

/// `p` with the path `tail` put behind it: an absolute one stands alone. On Windows a
/// tail that is rooted stands behind the prefix, and nothing stands between a disk
/// without a root and the tail.
pub open spec fn joined(p: PathView, tail: Seq<u8>) -> PathView {
    let b = p.bytes;
    let q = p.with(tail);
    let parted = b.len() == 0 || is_sep(usual_seps(p.platform), b.last());
    match p.platform {
        Platform::Unix => if absolute(q) {
            q
        } else if parted {
            p.with(b + tail)
        } else {
            p.with(b.push(SLASH) + tail)
        },
        Platform::Windows => if prefix_of(q).kind != PrefixKind::Nothing {
            q
        } else if prefix_of(p).verbatim() && tail.len() > 0 {
            p.with(verbatim_joined(p, q))
        } else if rooted(q) {
            p.with(b.subrange(0, prefix_of(p).len()) + tail)
        } else if parted || prefix_of(p).kind == PrefixKind::Disk && b.len() == 2 {
            p.with(b + tail)
        } else {
            p.with(b.push(BACKSLASH) + tail)
        },
    }
}

/// Where what stands before the names ends. A `.` right behind a drive names nothing,
/// but it stays there.
pub open spec fn opening_end(p: PathView) -> int {
    let n = body(p);
    if prefix_of(p).kind == PrefixKind::Disk && !root_written(p) && idle_dot(
        Seps::Either,
        p.bytes,
        n,
    ) {
        n + 1
    } else {
        n
    }
}

/// The path above `p`: none above a root, a prefix or an empty path.
pub open spec fn parent_of(p: PathView) -> Option<PathView> {
    let all = spans(p);
    if all.len() == 0 {
        None
    } else if all.len() >= 2 {
        Some(p.with(p.bytes.subrange(0, all[all.len() - 2].1)))
    } else {
        Some(p.with(p.bytes.subrange(0, opening_end(p))))
    }
}

/// The last component of `p`, where it is the name of a file.
pub open spec fn file_name_of(p: PathView) -> Option<PathView> {
    let all = names(p);
    if all.len() == 0 || !plain(all.last()) {
        None
    } else {
        Some(p.with(all.last()))
    }
}

/// Whether `p` has no components at all, not even a root or a prefix.
pub open spec fn no_components(p: PathView) -> bool {
    prefix_of(p).kind == PrefixKind::Nothing && !rooted(p) && names(p).len() == 0
}

/// Whether `p` is a prefix and no more.
pub open spec fn only_prefix(p: PathView) -> bool {
    prefix_of(p).kind != PrefixKind::Nothing && !rooted(p) && names(p).len() == 0
}

/// Whether `base` is what `p` begins with, component by component.
pub open spec fn has_base(p: PathView, base: PathView) -> bool {
    let n = names(base).len();
    ||| no_components(base)
    ||| {
        &&& prefix_of(base) == prefix_of(p)
        &&& only_prefix(base) || rooted(base) == rooted(p)
        &&& n <= names(p).len()
        &&& names(p).subrange(0, n as int) == names(base)
    }
}

/// Where what `p` says ends: separators and dots behind that add nothing.
pub open spec fn meaning_end(p: PathView) -> int {
    if spans(p).len() > 0 {
        spans(p).last().1
    } else {
        opening_end(p)
    }
}

/// What is left of `p` behind `base`.
pub open spec fn below(p: PathView, base: PathView) -> Option<PathView> {
    let n = names(base).len() as int;
    if p.platform != base.platform || !has_base(p, base) {
        None
    } else if no_components(base) {
        Some(p.with(p.bytes.subrange(0, meaning_end(p))))
    } else if only_prefix(base) {
        Some(p.with(p.bytes.subrange(prefix_of(p).len(), meaning_end(p))))
    } else if n == names(p).len() {
        Some(p.with(Seq::empty()))
    } else {
        Some(p.with(p.bytes.subrange(spans(p)[n].0, meaning_end(p))))
    }
}

/// Every span is a stretch of the path, and they come in order.
proof fn lemma_spans(w: Seps, b: Seq<u8>, i: int)
    requires
        0 <= i <= b.len(),
    ensures
        forall|k: int|
            #![trigger spans_from(w, b, i)[k]]
            0 <= k < spans_from(w, b, i).len() ==> i <= spans_from(w, b, i)[k].0
                < spans_from(w, b, i)[k].1 <= b.len(),
    decreases b.len() - i,
{
    let s = component_start(w, b, i);
    lemma_component_start(w, b, i);
    lemma_component_end(w, b, s);
    if s < b.len() {
        let e = component_end(w, b, s);
        lemma_spans(w, b, e);
        assert forall|k: int| 0 <= k < spans_from(w, b, i).len() implies i <= (
        #[trigger] spans_from(w, b, i)[k]).0 < spans_from(w, b, i)[k].1 <= b.len() by {
            if k > 0 {
                assert(spans_from(w, b, i)[k] == spans_from(w, b, e)[k - 1]);
            }
        }
    }
}

/// A prefix lies within the path, and so do its names.
proof fn lemma_two_names(kind: PrefixKind, w: Seps, b: Seq<u8>, i: int)
    requires
        0 <= i <= b.len(),
    ensures
        ({
            let r = two_names(kind, w, b, i);
            i + r.first.len() + (if r.second.len() > 0 {
                1 + r.second.len() as int
            } else {
                0
            }) <= b.len()
        }),
{
    let e = component_end(w, b, i);
    lemma_component_end(w, b, i);
    let s = if e < b.len() {
        e + 1
    } else {
        e
    };
    lemma_component_end(w, b, s);
}

pub(crate) proof fn lemma_prefix(p: PathView)
    ensures
        0 <= prefix_of(p).len() <= p.len(),
        0 <= body(p) <= p.len(),
{
    let b = p.bytes;
    if b.len() >= 8 {
        lemma_two_names(PrefixKind::VerbatimUnc, Seps::Backslash, b, 8);
    }
    if b.len() >= 4 {
        lemma_component_end(Seps::Backslash, b, 4);
        lemma_component_end(Seps::Either, b, 4);
    }
    if b.len() >= 2 {
        lemma_two_names(PrefixKind::Unc, Seps::Either, b, 2);
    }
}

/// Whether `x` parts components.
fn parts(w: Seps, x: u8) -> (r: bool)
    ensures
        r == is_sep(w, x),
{
    match w {
        Seps::Slash => x == SLASH,
        Seps::Either => x == SLASH || x == BACKSLASH,
        Seps::Backslash => x == BACKSLASH,
    }
}

/// Where the component that `i` stands in ends.
fn end_of(w: Seps, b: &[u8], i: usize) -> (r: usize)
    requires
        i <= b.len(),
    ensures
        r == component_end(w, b@, i as int),
        i <= r <= b.len(),
{
    let mut e: usize = i;
    while e < b.len() && !parts(w, b[e])
        invariant
            i <= e <= b.len(),
            component_end(w, b@, i as int) == component_end(w, b@, e as int),
        decreases b.len() - e,
    {
        e = e + 1;
    }
    e
}

fn piece(b: &[u8], i: usize, e: usize) -> (r: Vec<u8>)
    requires
        i <= e <= b.len(),
    ensures
        r@ == b@.subrange(i as int, e as int),
{
    vstd::slice::slice_to_vec(vstd::slice::slice_subrange(b, i, e))
}

/// What a path begins with, and how many bytes it takes.
#[derive(Debug)]
pub struct Prefix {
    pub kind: PrefixKind,
    /// The drive letter in upper case, the server, or the name.
    pub first: Vec<u8>,
    /// The share.
    pub second: Vec<u8>,
    /// How many bytes of the path it takes.
    pub len: usize,
}

impl View for Prefix {
    type V = PrefixView;

    open spec fn view(&self) -> PrefixView {
        PrefixView { kind: self.kind, first: self.first@, second: self.second@ }
    }
}

impl Prefix {
    fn nothing() -> (r: Prefix)
        ensures
            r@ == PrefixView::nothing(),
            r.len == 0,
    {
        let r = Prefix {
            kind: PrefixKind::Nothing,
            first: Vec::new(),
            second: Vec::new(),
            len: 0,
        };
        assert(r@ =~= PrefixView::nothing());
        r
    }

    fn one(kind: PrefixKind, first: Vec<u8>, len: usize) -> (r: Prefix)
        ensures
            r@ == PrefixView::one(kind, first@),
            r.len == len,
    {
        let r = Prefix { kind, first, second: Vec::new(), len };
        assert(r@ =~= PrefixView::one(kind, first@));
        r
    }

    fn disk(kind: PrefixKind, letter: u8, len: usize) -> (r: Prefix)
        ensures
            r@ == PrefixView::one(kind, seq![upper(letter)]),
            r.len == len,
    {
        let mut first: Vec<u8> = Vec::new();
        first.push(
            if 0x61 <= letter && letter <= 0x7a {
                letter - 32
            } else {
                letter
            },
        );
        assert(first@ =~= seq![upper(letter)]);
        Prefix::one(kind, first, len)
    }

    fn two(kind: PrefixKind, w: Seps, b: &[u8], i: usize) -> (r: Prefix)
        requires
            i <= b.len(),
        ensures
            r@ == two_names(kind, w, b@, i as int),
            r.len == i + r.first@.len() + (if r.second@.len() > 0 {
                1 + r.second@.len() as int
            } else {
                0
            }),
            r.len <= b.len(),
    {
        let e = end_of(w, b, i);
        let s: usize = if e < b.len() {
            e + 1
        } else {
            e
        };
        let end = end_of(w, b, s);
        let r = Prefix {
            kind,
            first: piece(b, i, e),
            second: piece(b, s, end),
            len: if end > s {
                end
            } else {
                e
            },
        };
        assert(r@ =~= two_names(kind, w, b@, i as int));
        r
    }

    fn is_verbatim(&self) -> (r: bool)
        ensures
            r == self@.verbatim(),
    {
        match self.kind {
            PrefixKind::Verbatim | PrefixKind::VerbatimUnc | PrefixKind::VerbatimDisk => true,
            _ => false,
        }
    }

    /// Whether there is no prefix.
    pub fn is_nothing(&self) -> (r: bool)
        ensures
            r == (self.kind == PrefixKind::Nothing),
    {
        match self.kind {
            PrefixKind::Nothing => true,
            _ => false,
        }
    }

    /// Whether the two are the same prefix, however they are written.
    pub fn is_same(&self, other: &Prefix) -> (r: bool)
        ensures
            r == (self@ == other@),
    {
        let r = self.kind == other.kind && same_bytes(
            self.first.as_slice(),
            other.first.as_slice(),
        ) && same_bytes(self.second.as_slice(), other.second.as_slice());
        assert(r ==> self@ =~= other@);
        r
    }
}

fn is_drive(b: &[u8], i: usize) -> (r: bool)
    requires
        i <= b.len(),
    ensures
        r == drive_at(b@, i as int),
{
    b.len() - i >= 2 && ((0x41 <= b[i] && b[i] <= 0x5a) || (0x61 <= b[i] && b[i] <= 0x7a)) && b[i
        + 1] == COLON
}

fn find_prefix(b: &[u8]) -> (r: Prefix)
    ensures
        r@ == windows_prefix(b@),
        r.len == r@.len(),
        r.len <= b.len(),
{
    let n: usize = b.len();
    if n >= 2 && parts(Seps::Either, b[0]) && parts(Seps::Either, b[1]) {
        if n >= 4 && b[0] == BACKSLASH && b[1] == BACKSLASH && b[2] == QUESTION && b[3]
            == BACKSLASH {
            if n >= 8 && b[4] == 0x55 && b[5] == 0x4e && b[6] == 0x43 && parts(
                Seps::Either,
                b[7],
            ) {
                Prefix::two(PrefixKind::VerbatimUnc, Seps::Backslash, b, 8)
            } else if is_drive(b, 4) && (n == 6 || parts(Seps::Either, b[6])) {
                Prefix::disk(PrefixKind::VerbatimDisk, b[4], 6)
            } else {
                let e = end_of(Seps::Backslash, b, 4);
                Prefix::one(PrefixKind::Verbatim, piece(b, 4, e), e)
            }
        } else if n >= 4 && b[2] == DOT && parts(Seps::Either, b[3]) {
            let e = end_of(Seps::Either, b, 4);
            Prefix::one(PrefixKind::Device, piece(b, 4, e), e)
        } else {
            let unc = Prefix::two(PrefixKind::Unc, Seps::Either, b, 2);
            if unc.first.len() > 0 && unc.second.len() > 0 {
                unc
            } else {
                Prefix::nothing()
            }
        }
    } else if is_drive(b, 0) {
        Prefix::disk(PrefixKind::Disk, b[0], 2)
    } else {
        Prefix::nothing()
    }
}

impl FilePath {
    /// The path of Unix that `text` spells.
    pub fn new(text: &str) -> (r: FilePath)
        ensures
            r@ == PathView::unix(utf8::encode_utf8(text@)),
    {
        FilePath::new_on(Platform::Unix, text)
    }

    /// The path of `platform` that `text` spells.
    pub fn new_on(platform: Platform, text: &str) -> (r: FilePath)
        ensures
            r@ == (PathView { platform, bytes: utf8::encode_utf8(text@) }),
    {
        FilePath { bytes: vstd::slice::slice_to_vec(text.as_bytes()), platform }
    }

    /// The path of Unix made of `bytes`.
    pub fn from_bytes(bytes: Vec<u8>) -> (r: FilePath)
        ensures
            r@ == PathView::unix(bytes@),
    {
        FilePath { bytes, platform: Platform::Unix }
    }

    /// The path of `platform` made of `bytes`.
    pub fn from_bytes_on(platform: Platform, bytes: Vec<u8>) -> (r: FilePath)
        ensures
            r@ == (PathView { platform, bytes: bytes@ }),
    {
        FilePath { bytes, platform }
    }

    /// The platform the path is of.
    pub fn platform(&self) -> (r: Platform)
        ensures
            r == self@.platform,
    {
        self.platform
    }

    /// The bytes of the path.
    pub fn as_bytes(&self) -> (r: &[u8])
        ensures
            r@ == self@.bytes,
    {
        self.bytes.as_slice()
    }

    /// A copy of the path.
    pub fn copy(&self) -> (r: FilePath)
        ensures
            r@ == self@,
    {
        FilePath {
            bytes: vstd::slice::slice_to_vec(self.bytes.as_slice()),
            platform: self.platform,
        }
    }

    /// Whether the path is empty.
    pub fn is_empty(&self) -> (r: bool)
        ensures
            r == (self@.len() == 0),
    {
        self.bytes.len() == 0
    }

    /// Another path of the same platform.
    fn another(&self, bytes: Vec<u8>) -> (r: FilePath)
        ensures
            r@ == self@.with(bytes@),
    {
        FilePath { bytes, platform: self.platform }
    }

    /// The stretch of the path from `i` to `e`.
    fn stretch(&self, i: usize, e: usize) -> (r: FilePath)
        requires
            i <= e <= self@.len(),
        ensures
            r@ == self@.with(self@.bytes.subrange(i as int, e as int)),
    {
        self.another(piece(self.bytes.as_slice(), i, e))
    }

    /// What the path begins with.
    pub fn prefix(&self) -> (r: Prefix)
        ensures
            r@ == prefix_of(self@),
            r.len == prefix_of(self@).len(),
            r.len <= self@.len(),
    {
        match self.platform {
            Platform::Unix => Prefix::nothing(),
            Platform::Windows => find_prefix(self.bytes.as_slice()),
        }
    }

    fn seps(&self) -> (r: Seps)
        ensures
            r == seps_of(self@),
    {
        match self.platform {
            Platform::Unix => Seps::Slash,
            Platform::Windows => if self.prefix().is_verbatim() {
                Seps::Backslash
            } else {
                Seps::Either
            },
        }
    }

    fn usual(&self) -> (r: Seps)
        ensures
            r == usual_seps(self@.platform),
    {
        match self.platform {
            Platform::Unix => Seps::Slash,
            Platform::Windows => Seps::Either,
        }
    }

    fn has_root_written(&self) -> (r: bool)
        ensures
            r == root_written(self@),
    {
        let n = self.prefix().len;
        n < self.bytes.len() && parts(self.usual(), self.bytes[n])
    }

    /// Whether the path starts at the root of something.
    pub fn is_rooted(&self) -> (r: bool)
        ensures
            r == rooted(self@),
    {
        self.has_root_written() || match self.prefix().kind {
            PrefixKind::Unc | PrefixKind::Device => true,
            _ => false,
        }
    }

    /// Whether the path means the same whatever the working directory.
    pub fn is_absolute(&self) -> (r: bool)
        ensures
            r == absolute(self@),
    {
        match self.platform {
            Platform::Unix => self.has_root_written(),
            Platform::Windows => match self.prefix().kind {
                PrefixKind::Nothing => false,
                PrefixKind::Disk => self.has_root_written(),
                _ => true,
            },
        }
    }

    fn body(&self) -> (r: usize)
        ensures
            r == body(self@),
            r <= self@.len(),
    {
        let n = self.prefix().len;
        if self.has_root_written() {
            assert(n < self.bytes.len());
            n + 1
        } else {
            n
        }
    }

    fn opening_end(&self) -> (r: usize)
        ensures
            r == opening_end(self@),
            self@.len() >= r >= prefix_of(self@).len(),
    {
        let n = self.body();
        if self.prefix().kind == PrefixKind::Disk && !self.has_root_written() && n
            < self.bytes.len() && self.is_idle(Seps::Either, n) {
            n + 1
        } else {
            n
        }
    }

    /// The path as text, where it is UTF-8.
    pub fn to_str(&self) -> (r: Option<String>)
        ensures
            r is Some <==> utf8::valid_utf8(self@.bytes),
            r is Some ==> utf8::encode_utf8(r->0@) == self@.bytes,
    {
        utf8(self.bytes.as_slice())
    }

    /// The path as text to show, whatever its bytes.
    pub fn display(&self) -> (r: String)
        ensures
            r@ == text::lossy_text(self@.bytes),
            utf8::valid_utf8(self@.bytes) ==> r@ == vstd::utf8::decode_utf8(self@.bytes),
    {
        lossy(self.bytes.as_slice())
    }

    /// The spans of the components.
    fn spans(&self) -> (r: Vec<(usize, usize)>)
        ensures
            r.len() == spans(self@).len(),
            forall|k: int|
                0 <= k < r.len() ==> r@[k].0 == spans(self@)[k].0 && r@[k].1 == spans(self@)[k].1
                    && body(self@) <= r@[k].0 < r@[k].1 <= self@.len(),
    {
        let w = self.seps();
        let start = self.body();
        let ghost b = self@.bytes;
        let ghost all = spans(self@);
        let mut out: Vec<(usize, usize)> = Vec::new();
        let mut i: usize = start;
        let mut more: bool = true;
        while more
            invariant
                b == self.bytes@,
                start <= i <= b.len(),
                more ==> all.len() == out.len() + spans_from(w, b, i as int).len()
                    && forall|k: int|
                    0 <= k < spans_from(w, b, i as int).len()
                        ==> #[trigger] all[out.len() + k] == spans_from(
                        w,
                        b,
                        i as int,
                    )[k],
                !more ==> out.len() == all.len(),
                out.len() <= all.len(),
                forall|k: int|
                    0 <= k < out.len() ==> out@[k].0 == all[k].0 && out@[k].1 == all[k].1 && start
                        <= out@[k].0 < out@[k].1 <= b.len(),
            decreases b.len() - i + (if more { 1int } else { 0int }),
        {
            let ghost from = i as int;
            proof {
                lemma_component_start(w, b, from);
            }
            let mut s: usize = i;
            while s < self.bytes.len() && (parts(w, self.bytes[s]) || self.is_idle(w, s))
                invariant
                    b == self.bytes@,
                    b == self@.bytes,
                    from <= s <= b.len(),
                    component_start(w, b, from) == component_start(
                        w,
                        b,
                        s as int,
                    ),
                decreases b.len() - s,
            {
                s = s + 1;
            }
            assert(s == component_start(w, b, from));
            if s >= self.bytes.len() {
                more = false;
            } else {
                proof {
                    lemma_component_end(w, b, s as int);
                }
                let e = end_of(w, self.bytes.as_slice(), s);
                let ghost rest = spans_from(w, b, e as int);
                assert(spans_from(w, b, from) == seq![(s as int, e as int)] + rest);
                assert(all[out.len() + 0int] == spans_from(w, b, from)[0]);
                assert(s < e);
                let ghost was = out@;
                out.push((s, e));
                assert forall|k: int| 0 <= k < out.len() implies out@[k].0 == all[k].0 && out@[k].1
                    == all[k].1 && start <= out@[k].0 < out@[k].1 <= b.len() by {
                    if k < was.len() {
                        assert(out@[k] == was[k]);
                    } else {
                        assert(all[k] == (s as int, e as int));
                    }
                }
                assert forall|k: int| 0 <= k < rest.len() implies #[trigger] all[out.len() + k]
                    == rest[k] by {
                    assert(all[(out.len() - 1) + (k + 1)] == spans_from(
                        w,
                        b,
                        from,
                    )[k + 1]);
                }
                i = e;
            }
        }
        out
    }

    fn is_idle(&self, w: Seps, i: usize) -> (r: bool)
        requires
            i < self@.len(),
        ensures
            r == idle_dot(w, self@.bytes, i as int),
    {
        assert(i < self.bytes.len());
        w != Seps::Backslash && 0 < i && self.bytes[i] == DOT && (i + 1 == self.bytes.len()
            || parts(w, self.bytes[i + 1]))
    }

    /// The components, each with its bytes.
    pub fn components(&self) -> (r: Vec<Vec<u8>>)
        ensures
            runs(r@) == names(self@),
    {
        let all = self.spans();
        let mut out: Vec<Vec<u8>> = Vec::new();
        let mut i: usize = 0;
        while i < all.len()
            invariant
                i <= all.len(),
                out.len() == i,
                all.len() == spans(self@).len(),
                forall|k: int|
                    0 <= k < all.len() ==> all@[k].0 == spans(self@)[k].0 && all@[k].1 == spans(
                        self@,
                    )[k].1 && all@[k].0 < all@[k].1 <= self@.len(),
                runs(out@) == names(self@).subrange(0, i as int),
            decreases all.len() - i,
        {
            let (s, e) = all[i];
            let ghost before = out@;
            out.push(piece(self.bytes.as_slice(), s, e));
            assert(runs(out@) =~= runs(before).push(names(self@)[i as int]));
            i = i + 1;
        }
        assert(runs(out@) =~= names(self@));
        out
    }

    /// Whether `self` and `other` are the same path, component by component.
    pub fn same(&self, other: &FilePath) -> (r: bool)
        ensures
            r == same_path(self@, other@),
    {
        if self.platform != other.platform || self.is_rooted() != other.is_rooted() {
            return false;
        }
        if !self.prefix().is_same(&other.prefix()) {
            return false;
        }
        let a = self.components();
        let b = other.components();
        if a.len() != b.len() {
            assert(runs(a@).len() != runs(b@).len());
            return false;
        }
        assert(runs(a@).subrange(0, b.len() as int) == runs(a@));
        begins(&a, &b)
    }

    /// `self` with `tail` put behind it.
    pub fn join(&self, tail: &FilePath) -> (r: FilePath)
        ensures
            r@ == joined(self@, tail@.bytes),
    {
        let q = self.another(vstd::slice::slice_to_vec(tail.bytes.as_slice()));
        let own = self.prefix();
        let n: usize = self.bytes.len();
        let parted = n == 0 || parts(self.usual(), self.bytes[n - 1]);
        let mut bytes: Vec<u8>;
        match self.platform {
            Platform::Unix => {
                if q.is_absolute() {
                    return q;
                }
                bytes = vstd::slice::slice_to_vec(self.bytes.as_slice());
                if !parted {
                    bytes.push(SLASH);
                }
            },
            Platform::Windows => {
                if !q.prefix().is_nothing() {
                    return q;
                }
                if own.is_verbatim() && q.bytes.len() > 0 {
                    return self.join_verbatim(&q);
                }
                if q.is_rooted() {
                    bytes = piece(self.bytes.as_slice(), 0, own.len);
                } else {
                    bytes = vstd::slice::slice_to_vec(self.bytes.as_slice());
                    if !parted && !(own.kind == PrefixKind::Disk && n == 2) {
                        bytes.push(BACKSLASH);
                    }
                }
            },
        }
        let ghost before = bytes@;
        let mut rest = vstd::slice::slice_to_vec(tail.bytes.as_slice());
        bytes.append(&mut rest);
        assert(bytes@ == before + tail@.bytes);
        self.another(bytes)
    }

    /// `self`, which is taken as it is written, with `q` put behind it.
    fn join_verbatim(&self, q: &FilePath) -> (r: FilePath)
        ensures
            r@ == self@.with(verbatim_joined(self@, q@)),
    {
        let more = q.components();
        let mut all: Vec<Vec<u8>> = if q.is_rooted() {
            let none: Vec<Vec<u8>> = Vec::new();
            assert(runs(none@) =~= Seq::<Seq<u8>>::empty());
            none
        } else {
            self.components()
        };
        let ghost base = runs(all@);
        let ghost steps = runs(more@);
        let mut i: usize = 0;
        assert(steps.take(0) =~= Seq::<Seq<u8>>::empty());
        while i < more.len()
            invariant
                i <= more.len(),
                steps == runs(more@),
                runs(all@) == walked(base, steps.take(i as int)),
            decreases more.len() - i,
        {
            let ghost upto = steps.take(i + 1);
            assert(upto.drop_last() =~= steps.take(i as int));
            assert(upto.last() == more@[i as int]@);
            let ghost was = all@;
            if is_dot(more[i].as_slice()) {
            } else if is_dots(more[i].as_slice()) {
                let n: usize = all.len();
                assert(n > 0 ==> runs(was).last() == was[n - 1]@);
                if n > 0 && !is_dot(all[n - 1].as_slice()) && !is_dots(all[n - 1].as_slice()) {
                    all.pop();
                    assert(runs(all@) =~= runs(was).drop_last());
                }
            } else {
                all.push(vstd::slice::slice_to_vec(more[i].as_slice()));
                assert(runs(all@) =~= runs(was).push(more@[i as int]@));
            }
            i = i + 1;
        }
        assert(steps.take(steps.len() as int) =~= steps);
        let ghost names_ = runs(all@);
        let n = self.prefix().len;
        let mut bytes = piece(self.bytes.as_slice(), 0, n);
        let ghost lead = bytes@;
        if all.len() == 0 && (self.is_rooted() || q.is_rooted()) {
            bytes.push(BACKSLASH);
            assert(bytes@ =~= lead + seq![BACKSLASH]);
        } else {
            let mut k: usize = 0;
            assert(names_.take(0) =~= Seq::<Seq<u8>>::empty());
            assert(bytes@ =~= lead + behind_each(names_.take(0)));
            while k < all.len()
                invariant
                    k <= all.len(),
                    names_ == runs(all@),
                    bytes@ == lead + behind_each(names_.take(k as int)),
                decreases all.len() - k,
            {
                let ghost upto = names_.take(k + 1);
                assert(upto.drop_last() =~= names_.take(k as int));
                assert(upto.last() == all@[k as int]@);
                let ghost was = bytes@;
                bytes.push(BACKSLASH);
                let mut name = vstd::slice::slice_to_vec(all[k].as_slice());
                bytes.append(&mut name);
                assert(bytes@ =~= lead + behind_each(upto));
                k = k + 1;
            }
            assert(names_.take(names_.len() as int) =~= names_);
        }
        self.another(bytes)
    }

    /// `self` with the name `tail` put behind it.
    pub fn join_str(&self, tail: &str) -> (r: FilePath)
        ensures
            r@ == joined(self@, utf8::encode_utf8(tail@)),
    {
        self.join(&FilePath::new(tail))
    }

    /// The path above this one.
    pub fn parent(&self) -> (r: Option<FilePath>)
        ensures
            opt_path(r) == parent_of(self@),
    {
        let all = self.spans();
        let n: usize = all.len();
        if n == 0 {
            None
        } else if n >= 2 {
            Some(self.stretch(0, all[n - 2].1))
        } else {
            Some(self.stretch(0, self.opening_end()))
        }
    }

    /// The last component, where it is the name of a file.
    pub fn file_name(&self) -> (r: Option<FilePath>)
        ensures
            opt_path(r) == file_name_of(self@),
    {
        let mut all = self.components();
        match all.pop() {
            None => None,
            Some(last) => {
                assert(last@ == names(self@).last()) by {
                    assert(runs(all@.push(last)).last() == last@);
                }
                if is_dot(last.as_slice()) || is_dots(last.as_slice()) {
                    None
                } else {
                    Some(self.another(last))
                }
            },
        }
    }

    /// What is left of `self` behind `base`; `None` where `base` is not what it
    /// begins with.
    pub fn strip_prefix(&self, base: &FilePath) -> (r: Option<FilePath>)
        ensures
            opt_path(r) == below(self@, base@),
    {
        if self.platform != base.platform {
            return None;
        }
        let mine = self.components();
        let theirs = base.components();
        let n: usize = theirs.len();
        assert(n == names(base@).len());
        let bare = !base.is_rooted() && n == 0;
        let nothing = bare && base.prefix().is_nothing();
        let alone = bare && !base.prefix().is_nothing();
        if !nothing {
            if !self.prefix().is_same(&base.prefix()) {
                return None;
            }
            if !alone && base.is_rooted() != self.is_rooted() {
                return None;
            }
            if n > mine.len() || !begins(&mine, &theirs) {
                return None;
            }
        }
        let all = self.spans();
        proof {
            lemma_prefix(self@);
        }
        let end: usize = if all.len() > 0 {
            all[all.len() - 1].1
        } else {
            self.opening_end()
        };
        assert(end == meaning_end(self@));
        let start: usize = if nothing {
            0
        } else if alone {
            self.prefix().len
        } else if n == all.len() {
            end
        } else {
            proof {
                lemma_ends_in_order(self@, n as int, all.len() - 1);
            }
            all[n].0
        };
        let r = self.stretch(start, end);
        assert(!nothing && !alone && n == all.len() ==> r@.bytes =~= Seq::<u8>::empty());
        Some(r)
    }
}

fn is_dot(name: &[u8]) -> (r: bool)
    ensures
        r == (name@ == seq![DOT]),
{
    let r = name.len() == 1 && name[0] == DOT;
    assert(r == (name@ =~= seq![DOT]));
    r
}

fn is_dots(name: &[u8]) -> (r: bool)
    ensures
        r == (name@ == seq![DOT, DOT]),
{
    let r = name.len() == 2 && name[0] == DOT && name[1] == DOT;
    assert(r == (name@ =~= seq![DOT, DOT]));
    r
}

impl PartialEq for FilePath {
    fn eq(&self, other: &FilePath) -> (r: bool) {
        self.same(other)
    }
}

impl vstd::std_specs::cmp::PartialEqSpecImpl for FilePath {
    open spec fn obeys_eq_spec() -> bool {
        true
    }

    open spec fn eq_spec(&self, other: &FilePath) -> bool {
        same_path(self@, other@)
    }
}

/// A span does not start behind where a later one ends.
proof fn lemma_ends_in_order(p: PathView, j: int, k: int)
    requires
        0 <= j <= k < spans(p).len(),
    ensures
        spans(p)[j].0 < spans(p)[k].1,
{
    lemma_prefix(p);
    lemma_order_from(seps_of(p), p.bytes, body(p), j, k);
}

proof fn lemma_order_from(w: Seps, b: Seq<u8>, i: int, j: int, k: int)
    requires
        0 <= i <= b.len(),
        0 <= j <= k < spans_from(w, b, i).len(),
    ensures
        spans_from(w, b, i)[j].0 < spans_from(w, b, i)[k].1,
    decreases b.len() - i,
{
    lemma_spans(w, b, i);
    let s = component_start(w, b, i);
    lemma_component_start(w, b, i);
    lemma_component_end(w, b, s);
    let e = component_end(w, b, s);
    lemma_spans(w, b, e);
    if j > 0 {
        lemma_order_from(w, b, e, j - 1, k - 1);
        assert(spans_from(w, b, i)[j] == spans_from(w, b, e)[j - 1]);
        assert(spans_from(w, b, i)[k] == spans_from(w, b, e)[k - 1]);
    } else if k > 0 {
        assert(spans_from(w, b, i)[k] == spans_from(w, b, e)[k - 1]);
    }
}

/// Whether `all` begins with `first`, item by item.
fn begins(all: &Vec<Vec<u8>>, first: &Vec<Vec<u8>>) -> (r: bool)
    requires
        first.len() <= all.len(),
    ensures
        r == (runs(all@).subrange(0, first.len() as int) == runs(first@)),
{
    let mut i: usize = 0;
    while i < first.len()
        invariant
            i <= first.len() <= all.len(),
            forall|k: int| 0 <= k < i ==> #[trigger] all@[k]@ == first@[k]@,
        decreases first.len() - i,
    {
        if !same_bytes(all[i].as_slice(), first[i].as_slice()) {
            assert(runs(all@).subrange(0, first.len() as int)[i as int] != runs(first@)[i as int]);
            return false;
        }
        i = i + 1;
    }
    assert(runs(all@).subrange(0, first.len() as int) =~= runs(first@));
    true
}

/// Whether `x` is among `b`.
pub fn holds_byte(b: &[u8], x: u8) -> (r: bool)
    ensures
        r == b@.contains(x),
{
    let mut i: usize = 0;
    while i < b.len()
        invariant
            i <= b.len(),
            forall|k: int| 0 <= k < i ==> b@[k] != x,
        decreases b.len() - i,
    {
        if b[i] == x {
            assert(b@[i as int] == x);
            return true;
        }
        i = i + 1;
    }
    false
}

/// Whether two runs of bytes are the same.
pub fn same_bytes(a: &[u8], b: &[u8]) -> (r: bool)
    ensures
        r == (a@ == b@),
{
    if a.len() != b.len() {
        return false;
    }
    let mut i: usize = 0;
    while i < a.len()
        invariant
            i <= a.len(),
            a.len() == b.len(),
            forall|k: int| 0 <= k < i ==> a@[k] == b@[k],
        decreases a.len() - i,
    {
        if a[i] != b[i] {
            assert(a@[i as int] != b@[i as int]);
            return false;
        }
        i = i + 1;
    }
    assert(a@ =~= b@);
    true
}

/// A copy of an optional path.
pub fn copy_path(o: &Option<FilePath>) -> (r: Option<FilePath>)
    ensures
        opt_path(r) == opt_path(*o),
{
    match o {
        Some(p) => Some(p.copy()),
        None => None,
    }
}

// ---------------------------------------------------------------------------
// Laws
// ---------------------------------------------------------------------------
/// Being the same path is an equivalence: every path is the same as itself, and
/// the relation runs both ways and carries over.
pub proof fn law_same_path_is_an_equivalence(a: PathView, b: PathView, c: PathView)
    ensures
        same_path(a, a),
        same_path(a, b) ==> same_path(b, a),
        same_path(a, b) && same_path(b, c) ==> same_path(a, c),
{
}

/// Whether `j` is `b` with `name` put behind it, from `m` on: `name` is a plain
/// component.
#[verifier::opaque]
spec fn put_behind(b: Seq<u8>, name: Seq<u8>, j: Seq<u8>, m: int) -> bool {
    &&& name.len() > 0
    &&& !name.contains(SLASH)
    &&& name != seq![DOT]
    &&& j == (if b.len() == 0 || b.last() == SLASH {
        b + name
    } else {
        b.push(SLASH) + name
    })
    &&& m == j.len() - name.len()
}

proof fn lemma_put_behind(b: Seq<u8>, name: Seq<u8>, j: Seq<u8>, m: int)
    requires
        put_behind(b, name, j, m),
    ensures
        b.len() <= m <= b.len() + 1,
        j.len() == m + name.len(),
        m < j.len(),
        forall|i: int| 0 <= i < b.len() ==> #[trigger] j[i] == b[i],
        forall|i: int| m <= i < j.len() ==> #[trigger] j[i] != SLASH,
        j.subrange(m, j.len() as int) == name,
        m > b.len() ==> j[b.len() as int] == SLASH,
        m == b.len() && b.len() > 0 ==> b.last() == SLASH,
        forall|i: int|
            0 <= i < b.len() ==> idle_dot(Seps::Slash, j, i) == #[trigger] idle_dot(
                Seps::Slash,
                b,
                i,
            ),
        !idle_dot(Seps::Slash, j, m),
{
    reveal(put_behind);
    assert(name.contains(name[0]));
    assert(j.subrange(m, j.len() as int) =~= name);
    assert forall|i: int| m <= i < j.len() implies #[trigger] j[i] != SLASH by {
        assert(j[i] == name[i - m]);
        assert(name.contains(name[i - m]));
    }
    if idle_dot(Seps::Slash, j, m) {
        assert(m + 1 == j.len());
        assert(name =~= seq![DOT]);
    }
}

proof fn lemma_start_behind(b: Seq<u8>, name: Seq<u8>, j: Seq<u8>, m: int, i: int)
    requires
        put_behind(b, name, j, m),
        0 <= i <= b.len(),
    ensures
        component_start(Seps::Slash, j, i) == (if component_start(Seps::Slash, b, i)
            < b.len() {
            component_start(Seps::Slash, b, i)
        } else {
            m
        }),
    decreases b.len() - i,
{
    lemma_put_behind(b, name, j, m);
    if i < b.len() {
        assert(idle_dot(Seps::Slash, j, i) == idle_dot(Seps::Slash, b, i));
        assert(j[i] == b[i]);
        if b[i] == SLASH || idle_dot(Seps::Slash, b, i) {
            lemma_start_behind(b, name, j, m, i + 1);
        }
    } else {
        assert(j[m] != SLASH);
        assert(component_start(Seps::Slash, j, m) == m);
        if m > i {
            assert(j[i] == SLASH);
            assert(m == i + 1);
        }
    }
}

proof fn lemma_end_behind(b: Seq<u8>, name: Seq<u8>, j: Seq<u8>, m: int, i: int)
    requires
        put_behind(b, name, j, m),
        0 <= i <= b.len(),
        i == b.len() ==> m > b.len(),
    ensures
        component_end(Seps::Slash, j, i) == component_end(Seps::Slash, b, i),
    decreases b.len() - i,
{
    lemma_put_behind(b, name, j, m);
    if i < b.len() && b[i] != SLASH {
        lemma_end_behind(b, name, j, m, i + 1);
    }
}

proof fn lemma_last_end(b: Seq<u8>, name: Seq<u8>, j: Seq<u8>, m: int, i: int)
    requires
        put_behind(b, name, j, m),
        m <= i <= j.len(),
    ensures
        component_end(Seps::Slash, j, i) == j.len(),
    decreases j.len() - i,
{
    lemma_put_behind(b, name, j, m);
    if i < j.len() {
        lemma_last_end(b, name, j, m, i + 1);
    }
}

proof fn lemma_spans_behind(b: Seq<u8>, name: Seq<u8>, j: Seq<u8>, m: int, i: int)
    requires
        put_behind(b, name, j, m),
        0 <= i <= b.len(),
    ensures
        spans_from(Seps::Slash, j, i) == spans_from(Seps::Slash, b, i).push(
            (m, j.len() as int),
        ),
    decreases b.len() - i,
{
    let w = Seps::Slash;
    lemma_put_behind(b, name, j, m);
    lemma_start_behind(b, name, j, m, i);
    lemma_component_start(w, b, i);
    let s = component_start(w, b, i);
    if s < b.len() {
        lemma_component_end(w, b, s);
        lemma_end_behind(b, name, j, m, s);
        let e = component_end(w, b, s);
        lemma_spans_behind(b, name, j, m, e);
        assert(spans_from(w, j, i) =~= seq![(s, e)] + spans_from(w, j, e));
        assert(spans_from(w, b, i) =~= seq![(s, e)] + spans_from(w, b, e));
        assert(spans_from(w, j, i) =~= spans_from(w, b, i).push((m, j.len() as int)));
    } else {
        lemma_last_end(b, name, j, m, m);
        let end = j.len() as int;
        assert(component_start(w, j, end) == end);
        assert(spans_from(w, j, end) =~= Seq::<(int, int)>::empty());
        assert(spans_from(w, b, i) =~= Seq::<(int, int)>::empty()) by {
            assert(component_end(w, b, s) == b.len());
        }
        assert(spans_from(w, j, i) =~= seq![(m, end)] + spans_from(w, j, end));
        assert(spans_from(w, j, i) =~= seq![(m, end)]);
    }
}

/// On Unix a plain name that is put behind a path is its last component, and everything
/// before it stays: no name leads out of the directory it is looked for in.
pub proof fn law_a_joined_name_stays_inside(p: PathView, name: Seq<u8>)
    requires
        p.platform == Platform::Unix,
        name.len() > 0,
        !name.contains(SLASH),
        name != seq![DOT],
    ensures
        names(joined(p, name)) == names(p).push(name),
        rooted(joined(p, name)) == rooted(p),
        joined(p, name).platform == Platform::Unix,
{
    let b = p.bytes;
    let q = joined(p, name);
    let j = q.bytes;
    let m = j.len() - name.len();
    assert(name.contains(name[0]));
    assert(!absolute(p.with(name)));
    assert(put_behind(b, name, j, m)) by {
        reveal(put_behind);
    }
    lemma_put_behind(b, name, j, m);
    if b.len() == 0 {
        assert(j[0] == name[0]);
    }
    assert(body(q) == body(p));
    lemma_spans_behind(b, name, j, m, body(p));
    lemma_spans(Seps::Slash, b, body(p));
    let all = spans(p).push((m, j.len() as int));
    assert(spans(q) == all);
    assert forall|k: int| 0 <= k < all.len() implies #[trigger] names(q)[k] == names(p).push(
        name,
    )[k] by {
        if k < spans(p).len() {
            let at = spans(p)[k];
            assert(spans_from(Seps::Slash, b, body(p))[k] == at);
            assert(j.subrange(at.0, at.1) =~= b.subrange(at.0, at.1));
        }
    }
    assert(names(q) =~= names(p).push(name));
}

} // verus!
