//! The files of a directory, in order.
use vstd::prelude::*;
use vstd::utf8;

use crate::config::Platform;
use crate::path::{self, FilePath, PathView, Prefix, PrefixKind, PrefixView, DOT};
use crate::state::{self, Siblings};

verus! {

// ---------------------------------------------------------------------------
// The order of paths
// ---------------------------------------------------------------------------
/// Whether bytes come no later than other bytes: at the first difference the
/// smaller one decides, and a beginning comes before what it begins.
pub open spec fn bytes_le(a: Seq<u8>, b: Seq<u8>) -> bool
    decreases a.len(),
{
    ||| a.len() == 0
    ||| b.len() > 0 && (a[0] < b[0] || a[0] == b[0] && bytes_le(a.drop_first(), b.drop_first()))
}

/// The kind of a component: the directory itself, the one above, a name.
pub open spec fn rank(name: Seq<u8>) -> int {
    if name == seq![DOT] {
        0
    } else if name == seq![DOT, DOT] {
        1
    } else {
        2
    }
}

/// Whether a component comes no later than another.
pub open spec fn name_le(a: Seq<u8>, b: Seq<u8>) -> bool {
    rank(a) < rank(b) || rank(a) == rank(b) && bytes_le(a, b)
}

/// Whether components come no later than others: at the first difference the
/// smaller one decides, and a beginning comes before what it begins.
pub open spec fn names_le(a: Seq<Seq<u8>>, b: Seq<Seq<u8>>) -> bool
    decreases a.len(),
{
    ||| a.len() == 0
    ||| b.len() > 0 && (a[0] != b[0] && name_le(a[0], b[0]) || a[0] == b[0] && names_le(
        a.drop_first(),
        b.drop_first(),
    ))
}

/// The place of a kind of prefix in the order.
pub open spec fn kind_rank(kind: PrefixKind) -> int {
    match kind {
        PrefixKind::Nothing => 0,
        PrefixKind::Verbatim => 1,
        PrefixKind::VerbatimUnc => 2,
        PrefixKind::VerbatimDisk => 3,
        PrefixKind::Device => 4,
        PrefixKind::Unc => 5,
        PrefixKind::Disk => 6,
    }
}

/// Whether a prefix comes before another: by its kind, and then by the names in it.
pub open spec fn prefix_lt(a: PrefixView, b: PrefixView) -> bool {
    a != b && (kind_rank(a.kind) < kind_rank(b.kind) || a.kind == b.kind && (a.first != b.first
        && bytes_le(a.first, b.first) || a.first == b.first && bytes_le(a.second, b.second)))
}

/// Whether a path comes no later than another, by their components. The prefix and
/// the root are components too, and come before every other.
pub open spec fn path_le(a: PathView, b: PathView) -> bool {
    let x = path::prefix_of(a);
    let y = path::prefix_of(b);
    if a.platform != b.platform {
        a.platform == Platform::Unix
    } else if x == y {
        if path::rooted(a) == path::rooted(b) {
            names_le(path::names(a), path::names(b))
        } else if path::rooted(a) {
            path::names(b).len() > 0
        } else {
            path::names(a).len() == 0
        }
    } else if x.kind == PrefixKind::Nothing {
        path::no_components(a)
    } else if y.kind == PrefixKind::Nothing {
        !path::no_components(b)
    } else {
        prefix_lt(x, y)
    }
}

fn bytes_no_later(a: &[u8], b: &[u8]) -> (r: bool)
    ensures
        r == bytes_le(a@, b@),
{
    let mut i: usize = 0;
    assert(a@.skip(0) =~= a@ && b@.skip(0) =~= b@);
    while i < a.len() && i < b.len() && a[i] == b[i]
        invariant
            i <= a.len(),
            i <= b.len(),
            bytes_le(a@, b@) == bytes_le(a@.skip(i as int), b@.skip(i as int)),
        decreases a.len() - i,
    {
        assert(a@.skip(i as int).drop_first() =~= a@.skip(i + 1));
        assert(b@.skip(i as int).drop_first() =~= b@.skip(i + 1));
        i = i + 1;
    }
    i >= a.len() || (i < b.len() && a[i] < b[i])
}

fn rank_of(name: &[u8]) -> (r: u8)
    ensures
        r == rank(name@),
{
    if name.len() == 1 && name[0] == DOT {
        assert(name@ =~= seq![DOT]);
        0
    } else if name.len() == 2 && name[0] == DOT && name[1] == DOT {
        assert(name@ =~= seq![DOT, DOT]);
        1
    } else {
        assert(name@ != seq![DOT] && name@ != seq![DOT, DOT]);
        2
    }
}

fn name_no_later(a: &[u8], b: &[u8]) -> (r: bool)
    ensures
        r == name_le(a@, b@),
{
    let x = rank_of(a);
    let y = rank_of(b);
    x < y || (x == y && bytes_no_later(a, b))
}

fn names_no_later(a: &Vec<Vec<u8>>, b: &Vec<Vec<u8>>) -> (r: bool)
    ensures
        r == names_le(path::runs(a@), path::runs(b@)),
{
    let mut i: usize = 0;
    let ghost x = path::runs(a@);
    let ghost y = path::runs(b@);
    assert(x.skip(0) =~= x && y.skip(0) =~= y);
    while i < a.len() && i < b.len() && crate::path::same_bytes(a[i].as_slice(), b[i].as_slice())
        invariant
            i <= a.len(),
            i <= b.len(),
            x == path::runs(a@),
            y == path::runs(b@),
            names_le(x, y) == names_le(x.skip(i as int), y.skip(i as int)),
        decreases a.len() - i,
    {
        assert(x.skip(i as int).drop_first() =~= x.skip(i + 1));
        assert(y.skip(i as int).drop_first() =~= y.skip(i + 1));
        assert(x.skip(i as int)[0] == a@[i as int]@);
        assert(y.skip(i as int)[0] == b@[i as int]@);
        i = i + 1;
    }
    if i >= a.len() {
        return true;
    }
    if i >= b.len() {
        return false;
    }
    assert(x.skip(i as int)[0] == a@[i as int]@);
    assert(y.skip(i as int)[0] == b@[i as int]@);
    name_no_later(a[i].as_slice(), b[i].as_slice())
}

fn kind_place(kind: PrefixKind) -> (r: u8)
    ensures
        r == kind_rank(kind),
{
    match kind {
        PrefixKind::Nothing => 0,
        PrefixKind::Verbatim => 1,
        PrefixKind::VerbatimUnc => 2,
        PrefixKind::VerbatimDisk => 3,
        PrefixKind::Device => 4,
        PrefixKind::Unc => 5,
        PrefixKind::Disk => 6,
    }
}

fn prefix_before(a: &Prefix, b: &Prefix) -> (r: bool)
    requires
        a@ != b@,
    ensures
        r == prefix_lt(a@, b@),
{
    if a.kind != b.kind {
        return kind_place(a.kind) < kind_place(b.kind);
    }
    if path::same_bytes(a.first.as_slice(), b.first.as_slice()) {
        bytes_no_later(a.second.as_slice(), b.second.as_slice())
    } else {
        bytes_no_later(a.first.as_slice(), b.first.as_slice())
    }
}

/// Whether a path comes no later than another.
pub fn no_later(a: &FilePath, b: &FilePath) -> (r: bool)
    ensures
        r == path_le(a@, b@),
{
    if a.platform() != b.platform() {
        return a.platform() == Platform::Unix;
    }
    let x = a.components();
    let y = b.components();
    assert(path::runs(x@).len() == x.len() && path::runs(y@).len() == y.len());
    let p = a.prefix();
    let q = b.prefix();
    if p.is_same(&q) {
        if a.is_rooted() == b.is_rooted() {
            names_no_later(&x, &y)
        } else if a.is_rooted() {
            y.len() > 0
        } else {
            x.len() == 0
        }
    } else if p.is_nothing() {
        !a.is_rooted() && x.len() == 0
    } else if q.is_nothing() {
        b.is_rooted() || y.len() > 0
    } else {
        prefix_before(&p, &q)
    }
}

proof fn lemma_bytes_le(a: Seq<u8>, b: Seq<u8>, c: Seq<u8>)
    ensures
        bytes_le(a, a),
        bytes_le(a, b) || bytes_le(b, a),
        bytes_le(a, b) && bytes_le(b, a) ==> a == b,
        bytes_le(a, b) && bytes_le(b, c) ==> bytes_le(a, c),
    decreases a.len() + b.len() + c.len(),
{
    if a.len() > 0 {
        lemma_bytes_le(
            a.drop_first(),
            if b.len() > 0 {
                b.drop_first()
            } else {
                b
            },
            if c.len() > 0 {
                c.drop_first()
            } else {
                c
            },
        );
    }
    if bytes_le(a, b) && bytes_le(b, a) {
        if a.len() > 0 {
            assert(a =~= seq![a[0]] + a.drop_first());
            assert(b =~= seq![b[0]] + b.drop_first());
        } else {
            assert(a =~= b);
        }
    }
}

proof fn lemma_names_le(a: Seq<Seq<u8>>, b: Seq<Seq<u8>>, c: Seq<Seq<u8>>)
    ensures
        names_le(a, a),
        names_le(a, b) || names_le(b, a),
        names_le(a, b) && names_le(b, a) ==> a == b,
        names_le(a, b) && names_le(b, c) ==> names_le(a, c),
    decreases a.len() + b.len() + c.len(),
{
    if a.len() > 0 {
        lemma_names_le(
            a.drop_first(),
            if b.len() > 0 {
                b.drop_first()
            } else {
                b
            },
            if c.len() > 0 {
                c.drop_first()
            } else {
                c
            },
        );
        if b.len() > 0 {
            lemma_bytes_le(a[0], b[0], b[0]);
            if c.len() > 0 {
                lemma_bytes_le(a[0], b[0], c[0]);
                lemma_bytes_le(b[0], c[0], a[0]);
                lemma_bytes_le(a[0], c[0], b[0]);
            }
        }
    }
    if names_le(a, b) && names_le(b, a) {
        if a.len() > 0 {
            assert(a =~= seq![a[0]] + a.drop_first());
            assert(b =~= seq![b[0]] + b.drop_first());
        } else {
            assert(a =~= b);
        }
    }
}

/// Paths are in one line: of any two one comes no later, two that come no later
/// than each other are the same path, and the order carries over.
pub proof fn law_paths_are_in_order(a: PathView, b: PathView, c: PathView)
    ensures
        path_le(a, a),
        path_le(a, b) || path_le(b, a),
        path_le(a, b) && path_le(b, a) <==> path::same_path(a, b),
        path_le(a, b) && path_le(b, c) ==> path_le(a, c),
{
    lemma_names_le(path::names(a), path::names(b), path::names(c));
    lemma_names_le(path::names(b), path::names(a), path::names(c));
    let x = path::prefix_of(a);
    let y = path::prefix_of(b);
    let z = path::prefix_of(c);
    lemma_prefix_lt(x, y, z);
    if path::same_path(a, b) {
        lemma_names_le(path::names(a), path::names(a), path::names(a));
    }
}

proof fn lemma_prefix_lt(x: PrefixView, y: PrefixView, z: PrefixView)
    ensures
        x != y ==> (prefix_lt(x, y) != prefix_lt(y, x)),
        prefix_lt(x, y) && prefix_lt(y, z) ==> prefix_lt(x, z),
        x.kind == PrefixKind::Nothing && prefix_lt(y, x) ==> y.kind == PrefixKind::Nothing,
{
    lemma_bytes_le(x.first, y.first, z.first);
    lemma_bytes_le(y.first, x.first, z.first);
    lemma_bytes_le(x.second, y.second, z.second);
    lemma_bytes_le(y.second, x.second, z.second);
    lemma_bytes_le(y.first, z.first, x.first);
    lemma_bytes_le(z.first, y.first, x.first);
    lemma_bytes_le(y.second, z.second, x.second);
    lemma_bytes_le(z.second, y.second, x.second);
    if x.kind == y.kind && x.first == y.first && x.second == y.second {
        assert(x =~= y);
    }
    if prefix_lt(x, y) && prefix_lt(y, z) {
        if x.kind == z.kind && x.first == z.first && x.second == z.second {
            assert(x =~= z);
        }
    }
}

// ---------------------------------------------------------------------------
// Sorting
// ---------------------------------------------------------------------------
/// Whether paths are in order.
pub open spec fn ordered(v: Seq<PathView>) -> bool {
    forall|i: int, j: int| 0 <= i <= j < v.len() ==> path_le(#[trigger] v[i], #[trigger] v[j])
}

/// Whether every one of `a` comes no later than every one of `b`.
pub open spec fn all_before(a: Seq<PathView>, b: Seq<PathView>) -> bool {
    forall|i: int, j: int|
        0 <= i < a.len() && 0 <= j < b.len() ==> path_le(#[trigger] a[i], #[trigger] b[j])
}

proof fn lemma_next_in_order(out: Seq<PathView>, x: PathView, rest: Seq<PathView>)
    requires
        ordered(out),
        forall|i: int| 0 <= i < out.len() ==> path_le(#[trigger] out[i], x),
        all_before(out, rest),
        forall|j: int| 0 <= j < rest.len() ==> path_le(x, #[trigger] rest[j]),
    ensures
        ordered(out.push(x)),
        all_before(out.push(x), rest),
{
    let v = out.push(x);
    assert forall|i: int, j: int| 0 <= i <= j < v.len() implies path_le(
        #[trigger] v[i],
        #[trigger] v[j],
    ) by {
        if j == out.len() {
            if i < out.len() {
                assert(v[i] == out[i]);
            } else {
                law_paths_are_in_order(x, x, x);
            }
        } else {
            assert(v[i] == out[i] && v[j] == out[j]);
        }
    }
    assert forall|i: int, j: int| 0 <= i < v.len() && 0 <= j < rest.len() implies path_le(
        #[trigger] v[i],
        #[trigger] rest[j],
    ) by {
        if i < out.len() {
            assert(v[i] == out[i]);
        }
    }
}

proof fn lemma_tail(v: Seq<PathView>, i: int)
    requires
        0 <= i < v.len(),
    ensures
        v.skip(i) == seq![v[i]] + v.skip(i + 1),
        v.take(i + 1) == v.take(i).push(v[i]),
{
    assert(v.skip(i) =~= seq![v[i]] + v.skip(i + 1));
    assert(v.take(i + 1) =~= v.take(i).push(v[i]));
}

/// Puts two ordered lists together, in order.
fn merge(a: &Vec<FilePath>, b: &Vec<FilePath>) -> (r: Vec<FilePath>)
    requires
        ordered(path::path_bytes(a@)),
        ordered(path::path_bytes(b@)),
    ensures
        ordered(path::path_bytes(r@)),
        path::path_bytes(r@).to_multiset() == path::path_bytes(a@).to_multiset().add(
            path::path_bytes(b@).to_multiset(),
        ),
{
    let ghost x = path::path_bytes(a@);
    let ghost y = path::path_bytes(b@);
    let mut out: Vec<FilePath> = Vec::new();
    let mut i: usize = 0;
    let mut j: usize = 0;
    proof {
        assert(path::path_bytes(out@) =~= Seq::<PathView>::empty());
        assert(x.take(0) =~= Seq::<PathView>::empty());
        assert(y.take(0) =~= Seq::<PathView>::empty());
        Seq::<PathView>::empty().to_multiset_ensures();
        assert(Seq::<PathView>::empty().to_multiset().len() == 0);
        assert(path::path_bytes(out@).to_multiset() =~= x.take(0).to_multiset().add(
            y.take(0).to_multiset(),
        ));
    }
    while i < a.len() || j < b.len()
        invariant
            i <= a.len(),
            j <= b.len(),
            x == path::path_bytes(a@),
            y == path::path_bytes(b@),
            ordered(x),
            ordered(y),
            ordered(path::path_bytes(out@)),
            all_before(path::path_bytes(out@), x.skip(i as int)),
            all_before(path::path_bytes(out@), y.skip(j as int)),
            path::path_bytes(out@).to_multiset() == x.take(i as int).to_multiset().add(
                y.take(j as int).to_multiset(),
            ),
        decreases a.len() - i + b.len() - j,
    {
        let left = if i >= a.len() {
            false
        } else if j >= b.len() {
            true
        } else {
            no_later(&a[i], &b[j])
        };
        let ghost o = path::path_bytes(out@);
        if left {
            let ghost p = x[i as int];
            proof {
                lemma_tail(x, i as int);
                assert forall|k: int| 0 <= k < o.len() implies path_le(#[trigger] o[k], p) by {
                    assert(x.skip(i as int)[0] == p);
                }
                assert forall|k: int| 0 <= k < x.skip(i + 1).len() implies path_le(
                    p,
                    #[trigger] x.skip(i + 1)[k],
                ) by {
                    assert(path_le(x[i as int], x[i + 1 + k]));
                }
                assert forall|k: int| 0 <= k < y.skip(j as int).len() implies path_le(
                    p,
                    #[trigger] y.skip(j as int)[k],
                ) by {
                    assert(path_le(p, y[j as int]));
                    assert(path_le(y[j as int], y[j + k]));
                    law_paths_are_in_order(p, y[j as int], y[j + k]);
                }
                assert(all_before(o, x.skip(i + 1))) by {
                    assert forall|k: int, m: int|
                        0 <= k < o.len() && 0 <= m < x.skip(i + 1).len() implies path_le(
                        #[trigger] o[k],
                        #[trigger] x.skip(i + 1)[m],
                    ) by {
                        assert(x.skip(i as int)[m + 1] == x.skip(i + 1)[m]);
                    }
                }
                lemma_next_in_order(o, p, x.skip(i + 1));
                lemma_next_in_order(o, p, y.skip(j as int));
                o.to_multiset_ensures();
                x.take(i as int).to_multiset_ensures();
            }
            out.push(a[i].copy());
            assert(path::path_bytes(out@) =~= o.push(p));
            i = i + 1;
            assert(path::path_bytes(out@).to_multiset() =~= x.take(i as int).to_multiset().add(
                y.take(j as int).to_multiset(),
            ));
        } else {
            let ghost p = y[j as int];
            proof {
                lemma_tail(y, j as int);
                assert forall|k: int| 0 <= k < o.len() implies path_le(#[trigger] o[k], p) by {
                    assert(y.skip(j as int)[0] == p);
                }
                assert forall|k: int| 0 <= k < y.skip(j + 1).len() implies path_le(
                    p,
                    #[trigger] y.skip(j + 1)[k],
                ) by {
                    assert(path_le(y[j as int], y[j + 1 + k]));
                }
                assert forall|k: int| 0 <= k < x.skip(i as int).len() implies path_le(
                    p,
                    #[trigger] x.skip(i as int)[k],
                ) by {
                    law_paths_are_in_order(x[i as int], p, p);
                    assert(path_le(p, x[i as int]));
                    assert(path_le(x[i as int], x[i + k]));
                    law_paths_are_in_order(p, x[i as int], x[i + k]);
                }
                assert(all_before(o, y.skip(j + 1))) by {
                    assert forall|k: int, m: int|
                        0 <= k < o.len() && 0 <= m < y.skip(j + 1).len() implies path_le(
                        #[trigger] o[k],
                        #[trigger] y.skip(j + 1)[m],
                    ) by {
                        assert(y.skip(j as int)[m + 1] == y.skip(j + 1)[m]);
                    }
                }
                lemma_next_in_order(o, p, y.skip(j + 1));
                lemma_next_in_order(o, p, x.skip(i as int));
                o.to_multiset_ensures();
                y.take(j as int).to_multiset_ensures();
            }
            out.push(b[j].copy());
            assert(path::path_bytes(out@) =~= o.push(p));
            j = j + 1;
            assert(path::path_bytes(out@).to_multiset() =~= x.take(i as int).to_multiset().add(
                y.take(j as int).to_multiset(),
            ));
        }
    }
    assert(x.take(i as int) =~= x);
    assert(y.take(j as int) =~= y);
    out
}

fn sorted_part(files: &Vec<FilePath>, from: usize, to: usize) -> (r: Vec<FilePath>)
    requires
        from <= to <= files.len(),
    ensures
        ordered(path::path_bytes(r@)),
        path::path_bytes(r@).to_multiset() == path::path_bytes(files@).subrange(
            from as int,
            to as int,
        ).to_multiset(),
    decreases to - from,
{
    let ghost part = path::path_bytes(files@).subrange(from as int, to as int);
    if to - from <= 1 {
        let mut out: Vec<FilePath> = Vec::new();
        if from < to {
            out.push(files[from].copy());
            proof {
                law_paths_are_in_order(part[0], part[0], part[0]);
            }
        }
        assert(path::path_bytes(out@) =~= part);
        return out;
    }
    let half: usize = from + (to - from) / 2;
    let a = sorted_part(files, from, half);
    let b = sorted_part(files, half, to);
    proof {
        let all = path::path_bytes(files@);
        let left = all.subrange(from as int, half as int);
        let right = all.subrange(half as int, to as int);
        assert(part =~= left + right);
        vstd::seq_lib::lemma_multiset_commutative(left, right);
    }
    merge(&a, &b)
}

/// The same paths, in order.
pub fn sorted(files: &Vec<FilePath>) -> (r: Vec<FilePath>)
    ensures
        ordered(path::path_bytes(r@)),
        path::path_bytes(r@).to_multiset() == path::path_bytes(files@).to_multiset(),
{
    assert(path::path_bytes(files@).subrange(0, files@.len() as int) =~= path::path_bytes(files@));
    sorted_part(files, 0, files.len())
}

// ---------------------------------------------------------------------------
// The files next to a path
// ---------------------------------------------------------------------------
/// What the disk said an entry of a directory is.
#[derive(Debug, Clone, Copy, PartialEq, Eq, Structural)]
pub enum Kind {
    /// It would not say.
    Unknown,
    /// A directory.
    Directory,
    /// A link, and whether it leads to a directory.
    Link { to_directory: bool },
    /// Anything else.
    File,
}

/// An entry of a directory.
#[derive(Debug)]
pub struct Found {
    /// Where it is.
    pub path: FilePath,
    /// What it is.
    pub kind: Kind,
}

/// Whether an entry is one to step to: a directory is not, nor a link to one, nor
/// what nothing is known of.
pub open spec fn is_stop(kind: Kind) -> bool {
    match kind {
        Kind::Unknown | Kind::Directory => false,
        Kind::Link { to_directory } => !to_directory,
        Kind::File => true,
    }
}

/// The entries to step to.
pub open spec fn stops(entries: Seq<Found>) -> Seq<PathView>
    decreases entries.len(),
{
    if entries.len() == 0 {
        Seq::empty()
    } else {
        let before = stops(entries.drop_last());
        if is_stop(entries.last().kind) {
            before.push(entries.last().path@)
        } else {
            before
        }
    }
}

/// The directory whose files are next to `path`.
pub fn scanned_dir(path: &FilePath) -> (r: FilePath)
    ensures
        r@ == (match path::parent_of(path@) {
            Some(p) => if p.len() > 0 {
                p
            } else {
                path@.with(utf8::encode_utf8("."@))
            },
            None => path@.with(utf8::encode_utf8("."@)),
        }),
{
    match path.parent() {
        Some(parent) => if parent.is_empty() {
            FilePath::new_on(path.platform(), ".")
        } else {
            parent
        },
        None => FilePath::new_on(path.platform(), "."),
    }
}

impl Siblings {
    /// The files next to `path`, out of what its directory holds: in order, without
    /// the directories.
    pub fn scan(path: &FilePath, entries: &Vec<Found>, wrap: bool) -> (r: Siblings)
        ensures
            r.wf(),
            r.wraps() == wrap,
            ordered(r.files()),
            r.files().to_multiset() == stops(entries@).to_multiset(),
            r.index() == state::position_of(r.files(), path@),
    {
        let mut files: Vec<FilePath> = Vec::new();
        let mut i: usize = 0;
        assert(entries@.subrange(0, 0) =~= Seq::<Found>::empty());
        assert(path::path_bytes(files@) =~= stops(entries@.subrange(0, 0)));
        while i < entries.len()
            invariant
                i <= entries.len(),
                path::path_bytes(files@) == stops(entries@.subrange(0, i as int)),
            decreases entries.len() - i,
        {
            let ghost upto = entries@.subrange(0, i + 1);
            assert(upto.drop_last() =~= entries@.subrange(0, i as int));
            let keep = match entries[i].kind {
                Kind::Unknown | Kind::Directory => false,
                Kind::Link { to_directory } => !to_directory,
                Kind::File => true,
            };
            let ghost before = path::path_bytes(files@);
            if keep {
                files.push(entries[i].path.copy());
                assert(path::path_bytes(files@) =~= before.push(entries@[i as int].path@));
            }
            i = i + 1;
        }
        assert(entries@.subrange(0, entries@.len() as int) =~= entries@);
        let files = sorted(&files);
        Siblings::from_files(files, path, wrap)
    }
}

// ---------------------------------------------------------------------------
// Laws
// ---------------------------------------------------------------------------
/// At the first difference the smaller byte decides: what has it comes first, and not
/// the other way round.
pub proof fn law_the_smaller_byte_comes_first(a: Seq<u8>, b: Seq<u8>, k: int)
    requires
        0 <= k < a.len(),
        k < b.len(),
        forall|i: int| 0 <= i < k ==> #[trigger] a[i] == b[i],
        a[k] < b[k],
    ensures
        bytes_le(a, b),
        !bytes_le(b, a),
    decreases k,
{
    if k > 0 {
        assert(a[0] == b[0]);
        let x = a.drop_first();
        let y = b.drop_first();
        assert forall|i: int| 0 <= i < k - 1 implies #[trigger] x[i] == y[i] by {
            assert(a[i + 1] == b[i + 1]);
        }
        law_the_smaller_byte_comes_first(x, y, k - 1);
    }
}

/// What another begins with comes before it.
pub proof fn law_a_beginning_comes_first(a: Seq<u8>, b: Seq<u8>)
    requires
        a.len() <= b.len(),
        forall|i: int| 0 <= i < a.len() ==> #[trigger] a[i] == b[i],
    ensures
        bytes_le(a, b),
        a.len() < b.len() ==> !bytes_le(b, a),
    decreases a.len(),
{
    if a.len() > 0 {
        assert(a[0] == b[0]);
        let x = a.drop_first();
        let y = b.drop_first();
        assert forall|i: int| 0 <= i < x.len() implies #[trigger] x[i] == y[i] by {
            assert(a[i + 1] == b[i + 1]);
        }
        law_a_beginning_comes_first(x, y);
    }
}

/// Components are compared one by one: the first that differs decides, and a path comes
/// before what is below it.
pub proof fn law_the_first_component_that_differs_decides(
    a: Seq<Seq<u8>>,
    b: Seq<Seq<u8>>,
    k: int,
    m: int,
)
    requires
        0 <= k < a.len(),
        k < b.len(),
        forall|i: int| 0 <= i < k ==> #[trigger] a[i] == b[i],
        path::plain(a[k]),
        path::plain(b[k]),
        0 <= m < a[k].len(),
        m < b[k].len(),
        forall|i: int| 0 <= i < m ==> #[trigger] a[k][i] == b[k][i],
        a[k][m] < b[k][m],
    ensures
        names_le(a, b),
        !names_le(b, a),
    decreases k,
{
    if k > 0 {
        assert(a[0] == b[0]);
        let x = a.drop_first();
        let y = b.drop_first();
        assert forall|i: int| 0 <= i < k - 1 implies #[trigger] x[i] == y[i] by {
            assert(a[i + 1] == b[i + 1]);
        }
        assert(x[k - 1] == a[k] && y[k - 1] == b[k]);
        assert forall|i: int| 0 <= i < m implies #[trigger] x[k - 1][i] == y[k - 1][i] by {
            assert(a[k][i] == b[k][i]);
        }
        law_the_first_component_that_differs_decides(x, y, k - 1, m);
    } else {
        law_the_smaller_byte_comes_first(a[0], b[0], m);
        assert(a[0] != b[0]);
    }
}

/// The files of one directory are in the order of their names: at the first byte in
/// which two names differ the smaller one comes first.
pub proof fn law_neighbours_are_in_the_order_of_their_names(
    p: PathView,
    q: PathView,
    dir: Seq<Seq<u8>>,
    x: Seq<u8>,
    y: Seq<u8>,
    m: int,
)
    requires
        p.platform == q.platform,
        path::prefix_of(p) == path::prefix_of(q),
        path::rooted(p) == path::rooted(q),
        path::names(p) == dir.push(x),
        path::names(q) == dir.push(y),
        path::plain(x),
        path::plain(y),
        0 <= m < x.len(),
        m < y.len(),
        forall|i: int| 0 <= i < m ==> #[trigger] x[i] == y[i],
        x[m] < y[m],
    ensures
        path_le(p, q),
        !path_le(q, p),
{
    let a = path::names(p);
    let b = path::names(q);
    let k = dir.len() as int;
    assert(a[k] == x && b[k] == y);
    assert forall|i: int| 0 <= i < m implies #[trigger] a[k][i] == b[k][i] by {
        assert(x[i] == y[i]);
    }
    law_the_first_component_that_differs_decides(a, b, k, m);
}

/// The directory itself comes before the one above, and that before every name.
pub proof fn law_dots_come_before_names(name: Seq<u8>)
    requires
        path::plain(name),
    ensures
        name_le(seq![DOT], seq![DOT, DOT]),
        !name_le(seq![DOT, DOT], seq![DOT]),
        name_le(seq![DOT, DOT], name),
        !name_le(name, seq![DOT, DOT]),
{
    assert(seq![DOT].len() != seq![DOT, DOT].len());
}

/// A list that is in order and has the same paths as another is that list in order: a
/// path that stands before another comes no later than it.
pub proof fn law_what_comes_first_stands_first(v: Seq<PathView>, i: int, j: int)
    requires
        ordered(v),
        0 <= i < v.len(),
        0 <= j < v.len(),
        path_le(v[i], v[j]),
        !path_le(v[j], v[i]),
    ensures
        i < j,
{
}

/// One entry more adds its path where it is a file or a link that leads to no
/// directory, and nothing where it is a directory, leads to one, or is not known.
pub proof fn law_only_files_are_stepped_to(entries: Seq<Found>, entry: Found)
    ensures
        stops(Seq::empty()) == Seq::<PathView>::empty(),
        entry.kind == Kind::File || entry.kind == (Kind::Link { to_directory: false }) ==> stops(
            entries.push(entry),
        ) == stops(entries).push(entry.path@),
        entry.kind == Kind::Directory || entry.kind == Kind::Unknown || entry.kind == (Kind::Link {
            to_directory: true,
        }) ==> stops(entries.push(entry)) == stops(entries),
{
    assert(entries.push(entry).drop_last() =~= entries);
}

} // verus!
