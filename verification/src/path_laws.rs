//! What paths promise: what their components are, and how taking a path apart and
//! putting one together go with each other.
use vstd::prelude::*;

use crate::config::Platform;
use crate::path::{self, PathView, PrefixKind, Seps};

verus! {

// ---------------------------------------------------------------------------
// Components
// ---------------------------------------------------------------------------
/// Whether `x` parts the components of `p`: a slash on Unix, one of either kind on
/// Windows, and a backslash alone where a path is taken as it is written.
pub open spec fn parts(p: PathView, x: u8) -> bool {
    match p.platform {
        Platform::Unix => x == 0x2f,
        Platform::Windows => x == 0x5c || x == 0x2f && !path::prefix_of(p).verbatim(),
    }
}

/// Whether the byte at `i` says nothing: it parts components, or is a dot that stands
/// alone between two that do.
pub open spec fn idle(p: PathView, i: int) -> bool {
    ||| parts(p, p.bytes[i])
    ||| {
        &&& i > 0
        &&& p.bytes[i] == 0x2e
        &&& i + 1 == p.bytes.len() || parts(p, p.bytes[i + 1])
        &&& p.platform == Platform::Unix || !path::prefix_of(p).verbatim()
    }
}

proof fn lemma_start(w: Seps, b: Seq<u8>, i: int)
    requires
        0 <= i <= b.len(),
    ensures
        ({
            let s = path::component_start(w, b, i);
            &&& i <= s <= b.len()
            &&& forall|x: int| i <= x < s ==> path::is_sep(w, b[x]) || #[trigger] path::idle_dot(w, b, x)
            &&& s < b.len() ==> !path::is_sep(w, b[s]) && !path::idle_dot(w, b, s)
            &&& i < s < b.len() ==> path::is_sep(w, b[s - 1])
        }),
    decreases b.len() - i,
{
    if i < b.len() && (path::is_sep(w, b[i]) || path::idle_dot(w, b, i)) {
        lemma_start(w, b, i + 1);
        let s = path::component_start(w, b, i);
        assert forall|x: int| i <= x < s implies path::is_sep(w, b[x])
            || #[trigger] path::idle_dot(w, b, x) by {
            if x > i {
                assert(path::is_sep(w, b[x]) || path::idle_dot(w, b, x));
            }
        }
    }
}

proof fn lemma_end(w: Seps, b: Seq<u8>, i: int)
    requires
        0 <= i <= b.len(),
    ensures
        ({
            let e = path::component_end(w, b, i);
            &&& i <= e <= b.len()
            &&& forall|x: int| i <= x < e ==> !path::is_sep(w, #[trigger] b[x])
            &&& e < b.len() ==> path::is_sep(w, b[e])
        }),
    decreases b.len() - i,
{
    if i < b.len() && !path::is_sep(w, b[i]) {
        lemma_end(w, b, i + 1);
    }
}

/// Whether `x` lies in one of `spans`.
pub open spec fn covered(spans: Seq<(int, int)>, x: int) -> bool {
    exists|k: int| 0 <= k < spans.len() && (#[trigger] spans[k]).0 <= x < spans[k].1
}

/// Whether the span `s` to `e` is one component of `b`, which begin at `i`.
spec fn component(w: Seps, b: Seq<u8>, i: int, s: int, e: int) -> bool {
    &&& i <= s < e <= b.len()
    &&& forall|x: int| s <= x < e ==> !path::is_sep(w, #[trigger] b[x])
    &&& s == i || path::is_sep(w, b[s - 1])
    &&& e == b.len() || path::is_sep(w, b[e])
    &&& !path::idle_dot(w, b, s)
}

proof fn lemma_spans(w: Seps, b: Seq<u8>, i: int)
    requires
        0 <= i <= b.len(),
    ensures
        ({
            let all = path::spans_from(w, b, i);
            &&& forall|k: int|
                0 <= k < all.len() ==> component(w, b, i, (#[trigger] all[k]).0, all[k].1)
            &&& forall|j: int, k: int|
                0 <= j < k < all.len() ==> (#[trigger] all[j]).1 <= (#[trigger] all[k]).0
            &&& forall|x: int|
                i <= x < b.len() && !#[trigger] covered(all, x) ==> path::is_sep(w, b[x])
                    || path::idle_dot(w, b, x)
        }),
    decreases b.len() - i,
{
    let all = path::spans_from(w, b, i);
    let s = path::component_start(w, b, i);
    lemma_start(w, b, i);
    lemma_end(w, b, s);
    let e = path::component_end(w, b, s);
    if s < b.len() {
        assert(e > s);
        let rest = path::spans_from(w, b, e);
        lemma_spans(w, b, e);
        assert(all == seq![(s, e)] + rest);
        assert forall|k: int| 0 <= k < all.len() implies component(
            w,
            b,
            i,
            (#[trigger] all[k]).0,
            all[k].1,
        ) by {
            if k > 0 {
                assert(all[k] == rest[k - 1]);
                assert(component(w, b, e, rest[k - 1].0, rest[k - 1].1));
                if rest[k - 1].0 == e {
                    assert(!path::is_sep(w, b[e]));
                }
            } else {
                assert(all[k] == (s, e));
            }
        }
        assert forall|j: int, k: int| 0 <= j < k < all.len() implies (#[trigger] all[j]).1 <= (
        #[trigger] all[k]).0 by {
            assert(all[k] == rest[k - 1]);
            if j > 0 {
                assert(all[j] == rest[j - 1]);
            } else {
                assert(component(w, b, e, rest[k - 1].0, rest[k - 1].1));
            }
        }
        assert forall|x: int| i <= x < b.len() && !#[trigger] covered(all, x) implies path::is_sep(
            w,
            b[x],
        ) || path::idle_dot(w, b, x) by {
            if x < s {
                assert(path::is_sep(w, b[x]) || path::idle_dot(w, b, x));
            } else if x < e {
                assert(all[0] == (s, e));
                assert(covered(all, x));
            } else {
                if covered(rest, x) {
                    let k = choose|k: int|
                        0 <= k < rest.len() && (#[trigger] rest[k]).0 <= x < rest[k].1;
                    assert(all[k + 1] == rest[k]);
                    assert(covered(all, x));
                }
                assert(!covered(rest, x));
            }
        }
    } else {
        assert(all =~= Seq::<(int, int)>::empty());
        assert forall|x: int| i <= x < b.len() && !#[trigger] covered(all, x) implies path::is_sep(
            w,
            b[x],
        ) || path::idle_dot(w, b, x) by {
            assert(path::is_sep(w, b[x]) || path::idle_dot(w, b, x));
        }
    }
}

proof fn lemma_parts(p: PathView, i: int)
    requires
        0 <= i < p.bytes.len(),
    ensures
        path::is_sep(path::seps_of(p), p.bytes[i]) == parts(p, p.bytes[i]),
        path::is_sep(path::seps_of(p), p.bytes[i]) || path::idle_dot(path::seps_of(p), p.bytes, i)
            <==> idle(p, i),
{
}

/// The components of a path are what stands between the bytes that part them: none holds
/// such a byte, each goes from one to the next, they come in the order of the path, and
/// every byte behind the root that belongs to none says nothing.
pub proof fn law_components_stand_between_separators(p: PathView)
    ensures
        ({
            let all = path::spans(p);
            let b = p.bytes;
            &&& forall|k: int|
                #![trigger all[k]]
                0 <= k < all.len() ==> {
                    let (s, e) = all[k];
                    &&& path::body(p) <= s < e <= b.len()
                    &&& forall|x: int| s <= x < e ==> !parts(p, #[trigger] b[x])
                    &&& s == path::body(p) || parts(p, b[s - 1])
                    &&& e == b.len() || parts(p, b[e])
                    &&& path::names(p)[k] == b.subrange(s, e)
                }
            &&& forall|j: int, k: int|
                0 <= j < k < all.len() ==> (#[trigger] all[j]).1 <= (#[trigger] all[k]).0
            &&& forall|x: int|
                path::body(p) <= x < b.len() && !#[trigger] covered(all, x) ==> idle(p, x)
            &&& path::names(p).len() == all.len()
        }),
{
    let w = path::seps_of(p);
    let b = p.bytes;
    let all = path::spans(p);
    path::lemma_prefix(p);
    lemma_spans(w, b, path::body(p));
    assert forall|k: int|
        #![trigger all[k]]
        0 <= k < all.len() implies {
        let (s, e) = all[k];
        &&& path::body(p) <= s < e <= b.len()
        &&& forall|x: int| s <= x < e ==> !parts(p, #[trigger] b[x])
        &&& s == path::body(p) || parts(p, b[s - 1])
        &&& e == b.len() || parts(p, b[e])
        &&& path::names(p)[k] == b.subrange(s, e)
    } by {
        let (s, e) = all[k];
        assert(component(w, b, path::body(p), all[k].0, all[k].1));
        assert forall|x: int| s <= x < e implies !parts(p, #[trigger] b[x]) by {
            lemma_parts(p, x);
        }
        if s > path::body(p) {
            lemma_parts(p, s - 1);
        }
        if e < b.len() {
            lemma_parts(p, e);
        }
    }
    assert forall|x: int| path::body(p) <= x < b.len() && !#[trigger] covered(all, x) implies idle(
        p,
        x,
    ) by {
        lemma_parts(p, x);
    }
}

// ---------------------------------------------------------------------------
// What a path begins with
// ---------------------------------------------------------------------------
/// A path of Unix is absolute where it begins with a slash, and has no prefix.
pub proof fn law_a_unix_path_is_absolute_with_a_slash(b: Seq<u8>)
    ensures
        ({
            let p = PathView { platform: Platform::Unix, bytes: b };
            &&& path::absolute(p) <==> b.len() > 0 && b[0] == 0x2f
            &&& path::rooted(p) <==> path::absolute(p)
            &&& path::prefix_of(p).kind == PrefixKind::Nothing
            &&& path::body(p) == (if path::absolute(p) {
                1int
            } else {
                0
            })
        }),
{
}

/// A path of Windows with a drive is absolute where a slash of either kind stands right
/// behind the colon. The drive is its letter in upper case.
pub proof fn law_a_drive_needs_a_root(b: Seq<u8>)
    requires
        b.len() >= 2,
        0x41 <= b[0] <= 0x5a || 0x61 <= b[0] <= 0x7a,
        b[1] == 0x3a,
    ensures
        ({
            let p = PathView { platform: Platform::Windows, bytes: b };
            let root = b.len() > 2 && (b[2] == 0x2f || b[2] == 0x5c);
            &&& path::absolute(p) <==> root
            &&& path::rooted(p) <==> root
            &&& path::prefix_of(p).kind == PrefixKind::Disk
            &&& path::prefix_of(p).first.len() == 1
            &&& path::prefix_of(p).first[0] == (if b[0] >= 0x61 {
                b[0] - 32
            } else {
                b[0] as int
            })
            &&& path::body(p) == (if root {
                3int
            } else {
                2
            })
        }),
{
}

/// A path of Windows that begins with neither a drive nor two slashes is never absolute,
/// though it may be rooted.
pub proof fn law_a_path_without_a_prefix_is_relative(b: Seq<u8>)
    requires
        b.len() < 2 || b[1] != 0x3a && !((b[0] == 0x2f || b[0] == 0x5c) && (b[1] == 0x2f || b[1]
            == 0x5c)),
    ensures
        ({
            let p = PathView { platform: Platform::Windows, bytes: b };
            &&& !path::absolute(p)
            &&& path::prefix_of(p).kind == PrefixKind::Nothing
            &&& path::rooted(p) <==> b.len() > 0 && (b[0] == 0x2f || b[0] == 0x5c)
        }),
{
}

proof fn lemma_end_is(w: Seps, b: Seq<u8>, i: int, n: int)
    requires
        0 <= i <= n <= b.len(),
        forall|x: int| i <= x < n ==> !path::is_sep(w, #[trigger] b[x]),
        n == b.len() || path::is_sep(w, b[n]),
    ensures
        path::component_end(w, b, i) == n,
    decreases n - i,
{
    if i < n {
        lemma_end_is(w, b, i + 1, n);
    }
}

/// Two slashes, a server, a slash and a share, all slashes of either kind, begin an
/// absolute path of Windows, whatever follows.
pub proof fn law_a_share_is_absolute(server: Seq<u8>, share: Seq<u8>, rest: Seq<u8>, x: u8, y: u8, z: u8)
    requires
        x == 0x2f || x == 0x5c,
        y == 0x2f || y == 0x5c,
        z == 0x2f || z == 0x5c,
        server.len() > 1,
        share.len() > 0,
        forall|i: int| 0 <= i < server.len() ==> #[trigger] server[i] != 0x2f && server[i] != 0x5c,
        forall|i: int| 0 <= i < share.len() ==> #[trigger] share[i] != 0x2f && share[i] != 0x5c,
        rest.len() == 0 || rest[0] == 0x2f || rest[0] == 0x5c,
    ensures
        ({
            let b = seq![x, y] + server + seq![z] + share + rest;
            let p = PathView { platform: Platform::Windows, bytes: b };
            &&& path::absolute(p)
            &&& path::prefix_of(p).kind == PrefixKind::Unc
            &&& path::prefix_of(p).first == server
            &&& path::prefix_of(p).second == share
            &&& path::prefix_of(p).len() == 3 + server.len() + share.len()
        }),
{
    let b = seq![x, y] + server + seq![z] + share + rest;
    let e = 2 + server.len() as int;
    let f = e + 1 + share.len();
    assert forall|i: int| 2 <= i < e implies !path::is_sep(Seps::Either, #[trigger] b[i]) by {
        assert(b[i] == server[i - 2]);
    }
    assert forall|i: int| e + 1 <= i < f implies !path::is_sep(Seps::Either, #[trigger] b[i]) by {
        assert(b[i] == share[i - e - 1]);
    }
    assert(b[e] == z);
    if rest.len() > 0 {
        assert(b[f] == rest[0]);
    }
    lemma_end_is(Seps::Either, b, 2, e);
    lemma_end_is(Seps::Either, b, e + 1, f);
    assert(b[2] == server[0] && b[3] == server[1]);
    assert(b.subrange(2, e) =~= server);
    assert(b.subrange(e + 1, f) =~= share);
}

// ---------------------------------------------------------------------------
// Putting together and taking apart
// ---------------------------------------------------------------------------
/// What is put behind a path of Unix stands alone where it is absolute; else it stands
/// behind the path, with one slash between them where the path is not empty and has none
/// at its end.
pub proof fn law_how_paths_are_joined(p: PathView, tail: Seq<u8>)
    requires
        p.platform == Platform::Unix,
    ensures
        ({
            let b = p.bytes;
            let j = path::joined(p, tail);
            &&& j.platform == Platform::Unix
            &&& tail.len() > 0 && tail[0] == 0x2f ==> j.bytes == tail
            &&& !(tail.len() > 0 && tail[0] == 0x2f) && (b.len() == 0 || b.last() == 0x2f)
                ==> j.bytes == b + tail
            &&& !(tail.len() > 0 && tail[0] == 0x2f) && b.len() > 0 && b.last() != 0x2f ==> j.bytes
                == b + seq![0x2fu8] + tail
        }),
{
    assert(p.bytes.push(path::SLASH) =~= p.bytes + seq![0x2fu8]);
}

/// On Windows a name stands behind a path with a backslash between them, unless a slash
/// of either kind is there already, or the path is empty or a drive alone; what begins
/// with a drive stands alone; and what is rooted stands behind the drive.
pub proof fn law_how_paths_are_joined_on_windows(p: PathView, tail: Seq<u8>)
    requires
        p.platform == Platform::Windows,
        !path::prefix_of(p).verbatim(),
        tail.len() > 0,
    ensures
        ({
            let b = p.bytes;
            let j = path::joined(p, tail);
            let sep = |x: u8| x == 0x2f || x == 0x5c;
            let letter = |x: u8| 0x41 <= x <= 0x5a || 0x61 <= x <= 0x7a;
            let drive = tail.len() > 1 && letter(tail[0]) && tail[1] == 0x3a;
            let alone = b.len() == 2 && letter(b[0]) && b[1] == 0x3a;
            &&& j.platform == Platform::Windows
            &&& drive ==> j.bytes == tail
            &&& !drive && !sep(tail[0]) && (b.len() == 0 || sep(b.last()) || alone) ==> j.bytes == b
                + tail
            &&& !drive && !sep(tail[0]) && b.len() > 0 && !sep(b.last()) && !alone ==> j.bytes == b
                + seq![0x5cu8] + tail
            &&& sep(tail[0]) && (tail.len() == 1 || !sep(tail[1])) && b.len() > 1 && letter(b[0])
                && b[1] == 0x3a ==> j.bytes == b.take(2) + tail
        }),
{
    let b = p.bytes;
    let q = p.with(tail);
    assert(b.push(path::BACKSLASH) =~= b + seq![0x5cu8]);
    assert(b.len() > 1 ==> b.subrange(0, 2) =~= b.take(2));
    if path::prefix_of(p).kind == PrefixKind::Disk && b.len() == 2 {
        assert(path::drive_at(b, 0));
    }
    assert(path::prefix_of(q) == path::windows_prefix(tail));
}

/// A plain name that is put behind a path of Unix is its file name, and what is left of
/// the whole behind the path.
pub proof fn law_a_joined_name_is_the_file_name(p: PathView, name: Seq<u8>)
    requires
        p.platform == Platform::Unix,
        name.len() > 0,
        !name.contains(0x2fu8),
        name != seq![0x2eu8],
    ensures
        name != seq![0x2eu8, 0x2eu8] ==> path::file_name_of(path::joined(p, name)) == Some(
            PathView { platform: Platform::Unix, bytes: name },
        ),
        name == seq![0x2eu8, 0x2eu8] ==> path::file_name_of(path::joined(p, name)) is None,
        path::below(path::joined(p, name), p) == Some(
            PathView { platform: Platform::Unix, bytes: name },
        ),
{
    path::law_a_joined_name_stays_inside(p, name);
    let q = path::joined(p, name);
    let n = path::names(p).len() as int;
    assert(path::names(q).last() == name);
    assert(path::plain(name) <==> name != seq![0x2eu8, 0x2eu8]);
    lemma_joined_end(p, name);
    let (s, e) = path::spans(q)[n];
    assert(path::names(q)[n] == q.bytes.subrange(s, e));
    assert(path::names(q).subrange(0, n) =~= path::names(p));
    assert(path::meaning_end(q) == q.bytes.len());
    if path::no_components(p) {
        lemma_nothing_is_empty(p);
        assert(q.bytes =~= name);
        assert(q.bytes.subrange(0, q.bytes.len() as int) =~= q.bytes);
    }
}

proof fn lemma_nothing_is_empty(p: PathView)
    requires
        p.platform == Platform::Unix,
        path::no_components(p),
    ensures
        p.bytes.len() == 0,
{
    law_components_stand_between_separators(p);
    if p.bytes.len() > 0 {
        assert(!covered(path::spans(p), 0));
        assert(idle(p, 0));
    }
}

/// A name that is put behind a path goes to its end.
proof fn lemma_joined_end(p: PathView, name: Seq<u8>)
    requires
        p.platform == Platform::Unix,
        name.len() > 0,
        !name.contains(0x2fu8),
        name != seq![0x2eu8],
    ensures
        path::spans(path::joined(p, name)).len() == path::names(p).len() + 1,
        path::spans(path::joined(p, name)).last().1 == path::joined(p, name).bytes.len(),
{
    path::law_a_joined_name_stays_inside(p, name);
    let q = path::joined(p, name);
    let n = path::names(p).len() as int;
    let all = path::spans(q);
    let m = q.bytes.len() - name.len();
    let last = q.bytes.len() - 1;
    assert(path::names(q).last() == name);
    assert(name.contains(name[0]));
    assert(q.bytes.subrange(m, q.bytes.len() as int) =~= name);
    lemma_last_is_covered(q, name);
    law_components_stand_between_separators(q);
    let k = choose|k: int| 0 <= k < all.len() && (#[trigger] all[k]).0 <= last < all[k].1;
    if k < n {
        assert(all[k].1 <= all[n].0);
    }
}

proof fn lemma_last_is_covered(q: PathView, name: Seq<u8>)
    requires
        q.platform == Platform::Unix,
        name.len() > 0,
        !name.contains(0x2fu8),
        path::names(q).len() > 0,
        path::names(q).last() == name,
        q.bytes.len() >= name.len(),
        q.bytes.subrange(q.bytes.len() - name.len(), q.bytes.len() as int) == name,
        name != seq![0x2eu8],
    ensures
        covered(path::spans(q), q.bytes.len() - 1),
{
    law_components_stand_between_separators(q);
    let b = q.bytes;
    let last = b.len() - 1;
    let m = b.len() - name.len();
    assert(b[last] == name.last());
    assert(name.contains(name.last()));
    if !covered(path::spans(q), last) {
        assert(idle(q, last));
        assert(b[last] == 0x2e);
        if name.len() == 1 {
            assert(name =~= seq![0x2eu8]);
        }
        assert(b[last - 1] == name[name.len() - 2]);
        assert(name.contains(name[name.len() - 2]));
        // The byte before is no separator, so it belongs to a component, which goes on.
        if covered(path::spans(q), last - 1) {
            let all = path::spans(q);
            let k = choose|k: int|
                0 <= k < all.len() && (#[trigger] all[k]).0 <= last - 1 < all[k].1;
            assert(all[k].1 == last);
            assert(parts(q, b[last]));
        } else {
            assert(path::body(q) <= last - 1 || last - 1 < path::body(q));
            if last - 1 >= path::body(q) {
                assert(idle(q, last - 1));
            } else {
                assert(b[0] == 0x2f);
            }
        }
    }
}

/// The path above another is the beginning of it, with the last name and what stands
/// around that taken off; a path has one exactly where it has a name.
pub proof fn law_the_parent_lacks_the_last_name(p: PathView)
    ensures
        path::parent_of(p) is Some <==> path::names(p).len() > 0,
        path::parent_of(p) is Some ==> {
            let up = path::parent_of(p)->0;
            let n = up.bytes.len() as int;
            let (s, e) = path::spans(p).last();
            &&& up.platform == p.platform
            &&& n <= s < e <= p.bytes.len()
            &&& up.bytes == p.bytes.take(n)
            &&& p.bytes.subrange(s, e) == path::names(p).last()
            &&& forall|x: int|
                #![trigger p.bytes[x]]
                n <= x < s && x >= path::body(p) || e <= x < p.bytes.len() ==> idle(p, x)
            &&& path::names(p).len() == 1 ==> n == path::body(p) || n == path::body(p) + 1 && p.bytes[n
                - 1] == 0x2e
            &&& path::names(p).len() > 1 ==> n == path::spans(p)[path::spans(p).len() - 2].1
        },
{
    path::lemma_prefix(p);
    law_components_stand_between_separators(p);
    let all = path::spans(p);
    if all.len() > 0 {
        let up = path::parent_of(p)->0;
        let n = up.bytes.len() as int;
        let last = all.len() - 1;
        let (s, e) = all[last];
        assert(path::names(p)[last] == p.bytes.subrange(s, e));
        if all.len() >= 2 {
            assert(all[last - 1].1 <= all[last].0);
            let t = all[last - 1];
            assert(t.1 <= p.bytes.len());
        } else {
            let m = path::body(p);
            if path::opening_end(p) == m + 1 {
                assert(path::idle_dot(Seps::Either, p.bytes, m));
                if s == m {
                    lemma_spans(path::seps_of(p), p.bytes, m);
                    assert(component(path::seps_of(p), p.bytes, m, all[0].0, all[0].1));
                }
            }
        }
        assert(up.bytes =~= p.bytes.take(n));
        assert forall|x: int|
            #![trigger p.bytes[x]]
            n <= x < s && x >= path::body(p) || e <= x < p.bytes.len() implies idle(p, x) by {
            if covered(all, x) {
                let k = choose|k: int| 0 <= k < all.len() && (#[trigger] all[k]).0 <= x < all[k].1;
                if k < last {
                    assert(all[k].1 <= all[last].0);
                    if k < last - 1 {
                        assert(all[k].1 <= all[last - 1].0);
                    }
                }
            }
            assert(!covered(all, x));
        }
    }
}

/// A path has a file name where its last component is one: neither the directory itself
/// nor the one above.
pub proof fn law_dots_are_no_file_names(p: PathView)
    ensures
        path::file_name_of(p) is Some <==> path::names(p).len() > 0 && path::names(p).last()
            != seq![0x2eu8] && path::names(p).last() != seq![0x2eu8, 0x2eu8],
        path::file_name_of(p) is Some ==> path::file_name_of(p)->0 == (PathView {
            platform: p.platform,
            bytes: path::names(p).last(),
        }),
{
}

/// Nothing is left of a path behind itself; and where something is left behind another,
/// that one's components are those the path begins with.
pub proof fn law_what_is_below_begins_alike(p: PathView, base: PathView)
    ensures
        path::names(p).len() > 0 ==> path::below(p, p) == Some(p.with(Seq::empty())),
        path::below(p, base) is Some && path::names(base).len() > 0 ==> {
            let n = path::names(base).len() as int;
            &&& n <= path::names(p).len()
            &&& path::names(p).take(n) == path::names(base)
            &&& path::prefix_of(p) == path::prefix_of(base)
            &&& path::rooted(p) == path::rooted(base)
            &&& p.platform == base.platform
        },
        p.platform == base.platform && path::prefix_of(p) == path::prefix_of(base) && path::rooted(
            p,
        ) == path::rooted(base) && path::names(base).len() <= path::names(p).len()
            && path::names(p).take(path::names(base).len() as int) == path::names(base)
            ==> path::below(p, base) is Some,
{
    let n = path::names(base).len() as int;
    if n <= path::names(p).len() {
        assert(path::names(p).subrange(0, n) =~= path::names(p).take(n));
    }
    assert(path::names(p).subrange(0, path::names(p).len() as int) =~= path::names(p));
}

// ---------------------------------------------------------------------------
// The same path, written otherwise
// ---------------------------------------------------------------------------
proof fn lemma_end_more(w: Seps, b: Seq<u8>, c: u8, i: int)
    requires
        path::is_sep(w, c),
        0 <= i <= b.len(),
    ensures
        path::component_end(w, b.push(c), i) == path::component_end(w, b, i),
    decreases b.len() - i,
{
    if i < b.len() && !path::is_sep(w, b[i]) {
        lemma_end_more(w, b, c, i + 1);
    }
}

proof fn lemma_start_more(w: Seps, b: Seq<u8>, c: u8, i: int)
    requires
        path::is_sep(w, c),
        0 <= i <= b.len(),
    ensures
        path::component_start(w, b.push(c), i) == (if path::component_start(w, b, i) < b.len() {
            path::component_start(w, b, i)
        } else {
            b.len() as int + 1
        }),
    decreases b.len() - i,
{
    let j = b.push(c);
    if i < b.len() {
        assert(path::idle_dot(w, j, i) == path::idle_dot(w, b, i)) by {
            if i + 1 < b.len() {
                assert(j[i + 1] == b[i + 1]);
            }
        }
        if path::is_sep(w, b[i]) || path::idle_dot(w, b, i) {
            lemma_start_more(w, b, c, i + 1);
        }
    } else {
        assert(path::component_start(w, j, b.len() as int + 1) == b.len() + 1);
    }
}

proof fn lemma_spans_more(w: Seps, b: Seq<u8>, c: u8, i: int)
    requires
        path::is_sep(w, c),
        0 <= i <= b.len(),
    ensures
        path::spans_from(w, b.push(c), i) == path::spans_from(w, b, i),
    decreases b.len() - i,
{
    let j = b.push(c);
    lemma_start(w, b, i);
    lemma_start_more(w, b, c, i);
    let s = path::component_start(w, b, i);
    if s < b.len() {
        lemma_end(w, b, s);
        lemma_end_more(w, b, c, s);
        let e = path::component_end(w, b, s);
        lemma_spans_more(w, b, c, e);
    } else {
        assert(path::component_end(w, j, j.len() as int) == j.len());
        assert(path::spans_from(w, j, i) =~= Seq::<(int, int)>::empty());
        assert(path::component_end(w, b, s) == b.len());
        assert(path::spans_from(w, b, i) =~= Seq::<(int, int)>::empty());
    }
}

/// A slash more at the end of a path of Unix is the same path.
pub proof fn law_a_slash_at_the_end_does_not_matter(b: Seq<u8>)
    requires
        b.len() > 0,
    ensures
        path::same_path(PathView::unix(b.push(0x2fu8)), PathView::unix(b)),
{
    let p = PathView::unix(b);
    let q = PathView::unix(b.push(0x2fu8));
    lemma_spans_more(Seps::Slash, b, 0x2fu8, path::body(p));
    lemma_spans(Seps::Slash, b, path::body(p));
    let all = path::spans(p);
    assert(path::body(q) == path::body(p));
    assert(path::names(q) =~= path::names(p)) by {
        assert forall|k: int| 0 <= k < all.len() implies #[trigger] path::names(q)[k]
            == path::names(p)[k] by {
            assert(component(Seps::Slash, b, path::body(p), all[k].0, all[k].1));
            assert(q.bytes.subrange(all[k].0, all[k].1) =~= b.subrange(all[k].0, all[k].1));
        }
    }
}

/// Two paths are the same where they have the same components behind the same root; two
/// names that differ in any byte are two paths.
pub proof fn law_the_same_path_has_the_same_names(a: PathView, b: PathView)
    ensures
        path::same_path(a, b) <==> a.platform == b.platform && path::prefix_of(a)
            == path::prefix_of(b) && path::rooted(a) == path::rooted(b) && path::names(a).len()
            == path::names(b).len() && (forall|k: int|
            0 <= k < path::names(a).len() ==> #[trigger] path::names(a)[k] == path::names(b)[k]),
{
    if path::names(a).len() == path::names(b).len() && (forall|k: int|
        0 <= k < path::names(a).len() ==> #[trigger] path::names(a)[k] == path::names(b)[k]) {
        assert(path::names(a) =~= path::names(b));
    }
}

/// The case of a drive letter does not matter.
pub proof fn law_the_case_of_a_drive_does_not_matter(c: u8, rest: Seq<u8>)
    requires
        0x41 <= c <= 0x5a,
    ensures
        ({
            let a = PathView {
                platform: Platform::Windows,
                bytes: seq![c, 0x3au8] + rest,
            };
            let b = PathView {
                platform: Platform::Windows,
                bytes: seq![(c + 32) as u8, 0x3au8] + rest,
            };
            path::same_path(a, b)
        }),
{
    let x = seq![c, 0x3au8] + rest;
    let y = seq![(c + 32) as u8, 0x3au8] + rest;
    let a = PathView { platform: Platform::Windows, bytes: x };
    let b = PathView { platform: Platform::Windows, bytes: y };
    let w = Seps::Either;
    law_a_drive_needs_a_root(x);
    law_a_drive_needs_a_root(y);
    if x.len() > 2 {
        assert(x[2] == y[2]);
    }
    assert(path::prefix_of(a).first =~= path::prefix_of(b).first);
    lemma_spans_alike(w, x, y, path::body(a));
    lemma_spans(w, x, path::body(a));
    let all = path::spans(a);
    assert(path::spans(b) == all);
    assert(path::names(a) =~= path::names(b)) by {
        assert forall|k: int| 0 <= k < all.len() implies #[trigger] path::names(a)[k]
            == path::names(b)[k] by {
            assert(component(w, x, path::body(a), all[k].0, all[k].1));
            assert(x.subrange(all[k].0, all[k].1) =~= y.subrange(all[k].0, all[k].1));
        }
    }
}

proof fn lemma_spans_alike(w: Seps, x: Seq<u8>, y: Seq<u8>, i: int)
    requires
        0 < i <= x.len(),
        x.len() == y.len(),
        forall|k: int| i <= k < x.len() ==> #[trigger] x[k] == y[k],
    ensures
        path::spans_from(w, x, i) == path::spans_from(w, y, i),
    decreases x.len() - i,
{
    lemma_start_alike(w, x, y, i);
    lemma_start(w, x, i);
    let s = path::component_start(w, x, i);
    lemma_end_alike(w, x, y, s);
    lemma_end(w, x, s);
    if s < x.len() {
        let e = path::component_end(w, x, s);
        lemma_spans_alike(w, x, y, e);
    }
}

proof fn lemma_start_alike(w: Seps, x: Seq<u8>, y: Seq<u8>, i: int)
    requires
        0 < i <= x.len(),
        x.len() == y.len(),
        forall|k: int| i <= k < x.len() ==> #[trigger] x[k] == y[k],
    ensures
        path::component_start(w, x, i) == path::component_start(w, y, i),
    decreases x.len() - i,
{
    if i < x.len() {
        assert(x[i] == y[i]);
        if i + 1 < x.len() {
            assert(x[i + 1] == y[i + 1]);
        }
        lemma_start_alike(w, x, y, i + 1);
    }
}

proof fn lemma_end_alike(w: Seps, x: Seq<u8>, y: Seq<u8>, i: int)
    requires
        0 < i <= x.len(),
        x.len() == y.len(),
        forall|k: int| i <= k < x.len() ==> #[trigger] x[k] == y[k],
    ensures
        path::component_end(w, x, i) == path::component_end(w, y, i),
    decreases x.len() - i,
{
    if i < x.len() {
        assert(x[i] == y[i]);
        lemma_end_alike(w, x, y, i + 1);
    }
}

// ---------------------------------------------------------------------------
// Walking
// ---------------------------------------------------------------------------
/// Where a path is written anew, names go behind one another; a dot leads nowhere; and
/// two dots behind a name lead back to where that name was looked for.
pub proof fn law_two_dots_lead_back(base: Seq<Seq<u8>>, more: Seq<Seq<u8>>, name: Seq<u8>)
    ensures
        path::walked(base, Seq::empty()) == base,
        path::walked(base, more.push(seq![0x2eu8])) == path::walked(base, more),
        name != seq![0x2eu8] && name != seq![0x2eu8, 0x2eu8] ==> path::walked(base, more.push(name))
            == path::walked(base, more).push(name) && path::walked(
            base,
            more.push(name).push(seq![0x2eu8, 0x2eu8]),
        ) == path::walked(base, more),
        path::walked(Seq::empty(), seq![seq![0x2eu8, 0x2eu8]]) == Seq::<Seq<u8>>::empty(),
{
    let up = seq![0x2eu8, 0x2eu8];
    let here = seq![0x2eu8];
    assert(here.len() == 1 && up.len() == 2);
    assert(more.push(here).drop_last() =~= more);
    assert(more.push(name).drop_last() =~= more);
    assert(more.push(name).push(up).drop_last() =~= more.push(name));
    let before = path::walked(base, more);
    assert(before.push(name).drop_last() =~= before);
    if name != here && name != up {
        assert(path::plain(name));
        assert(path::walked(base, more.push(name)) == before.push(name));
        assert(more.push(name).push(up).last() == up);
        assert(up != here);
        assert(before.push(name).last() == name);
        assert(path::walked(base, more.push(name).push(up)) == before.push(name).drop_last());
    }
    let none = Seq::<Seq<u8>>::empty();
    assert(seq![up].drop_last() =~= none);
    assert(path::walked(none, none) == none);
}

/// Names that are written anew stand behind one another, each with a backslash before it.
pub proof fn law_names_are_written_with_backslashes(names: Seq<Seq<u8>>, name: Seq<u8>)
    ensures
        path::behind_each(Seq::empty()) == Seq::<u8>::empty(),
        path::behind_each(names.push(name)) == path::behind_each(names) + seq![0x5cu8] + name,
{
    assert(names.push(name).drop_last() =~= names);
}

// ---------------------------------------------------------------------------
// Devices, and paths that are taken as they are written
// ---------------------------------------------------------------------------
/// Two slashes, a dot, a slash and a name, all slashes of either kind, begin the absolute
/// path of a device, which has its root whether it is written or not.
pub proof fn law_a_device_is_absolute(name: Seq<u8>, rest: Seq<u8>, x: u8, y: u8, z: u8)
    requires
        x == 0x2f || x == 0x5c,
        y == 0x2f || y == 0x5c,
        z == 0x2f || z == 0x5c,
        forall|i: int| 0 <= i < name.len() ==> #[trigger] name[i] != 0x2f && name[i] != 0x5c,
        rest.len() == 0 || rest[0] == 0x2f || rest[0] == 0x5c,
    ensures
        ({
            let p = PathView {
                platform: Platform::Windows,
                bytes: seq![x, y, 0x2eu8, z] + name + rest,
            };
            &&& path::absolute(p)
            &&& path::rooted(p)
            &&& path::prefix_of(p).kind == PrefixKind::Device
            &&& path::prefix_of(p).first == name
        }),
{
    let b = seq![x, y, 0x2eu8, z] + name + rest;
    let e = 4 + name.len() as int;
    assert forall|i: int| 4 <= i < e implies !path::is_sep(Seps::Either, #[trigger] b[i]) by {
        assert(b[i] == name[i - 4]);
    }
    if rest.len() > 0 {
        assert(b[e] == rest[0]);
    }
    lemma_end_is(Seps::Either, b, 4, e);
    assert(b.subrange(4, e) =~= name);
}

/// A share is rooted whether its root is written or not; a drive and a path without a
/// prefix only where it is.
pub proof fn law_what_is_rooted(p: PathView)
    ensures
        path::prefix_of(p).kind == PrefixKind::Unc ==> path::rooted(p),
        path::prefix_of(p).kind == PrefixKind::Device ==> path::rooted(p),
        path::prefix_of(p).kind != PrefixKind::Unc && path::prefix_of(p).kind != PrefixKind::Device
            ==> path::rooted(p) == path::root_written(p),
{
}

/// A drive behind `\\?\` is taken as it is written: it is absolute, and a backslash alone
/// parts what follows.
pub proof fn law_a_verbatim_drive(c: u8, rest: Seq<u8>)
    requires
        0x41 <= c <= 0x5a || 0x61 <= c <= 0x7a,
        rest.len() == 0 || rest[0] == 0x2f || rest[0] == 0x5c,
    ensures
        ({
            let p = PathView {
                platform: Platform::Windows,
                bytes: seq![0x5cu8, 0x5cu8, 0x3fu8, 0x5cu8, c, 0x3au8] + rest,
            };
            &&& path::absolute(p)
            &&& path::prefix_of(p).kind == PrefixKind::VerbatimDisk
            &&& path::prefix_of(p).verbatim()
            &&& path::prefix_of(p).len() == 6
            &&& path::prefix_of(p).first[0] == (if c >= 0x61 {
                c - 32
            } else {
                c as int
            })
            &&& !parts(p, 0x2f) && parts(p, 0x5c)
        }),
{
    let b = seq![0x5cu8, 0x5cu8, 0x3fu8, 0x5cu8, c, 0x3au8] + rest;
    if rest.len() > 0 {
        assert(b[6] == rest[0]);
    }
    assert(b[4] == c && b[5] == 0x3a);
}

/// A share behind `\\?\UNC\` is taken as it is written: its server and its share are what
/// stands between backslashes.
pub proof fn law_a_verbatim_share(server: Seq<u8>, share: Seq<u8>, rest: Seq<u8>)
    requires
        server.len() > 0,
        share.len() > 0,
        forall|i: int| 0 <= i < server.len() ==> #[trigger] server[i] != 0x5c,
        forall|i: int| 0 <= i < share.len() ==> #[trigger] share[i] != 0x5c,
        rest.len() == 0 || rest[0] == 0x5c,
    ensures
        ({
            let p = PathView {
                platform: Platform::Windows,
                bytes: seq![0x5cu8, 0x5cu8, 0x3fu8, 0x5cu8, 0x55u8, 0x4eu8, 0x43u8, 0x5cu8] + server
                    + seq![0x5cu8] + share + rest,
            };
            &&& path::absolute(p)
            &&& path::prefix_of(p).kind == PrefixKind::VerbatimUnc
            &&& path::prefix_of(p).verbatim()
            &&& path::prefix_of(p).first == server
            &&& path::prefix_of(p).second == share
            &&& path::prefix_of(p).len() == 9 + server.len() + share.len()
        }),
{
    let b = seq![0x5cu8, 0x5cu8, 0x3fu8, 0x5cu8, 0x55u8, 0x4eu8, 0x43u8, 0x5cu8] + server + seq![
        0x5cu8,
    ] + share + rest;
    let e = 8 + server.len() as int;
    let f = e + 1 + share.len();
    assert forall|i: int| 8 <= i < e implies !path::is_sep(Seps::Backslash, #[trigger] b[i]) by {
        assert(b[i] == server[i - 8]);
    }
    assert forall|i: int| e + 1 <= i < f implies !path::is_sep(
        Seps::Backslash,
        #[trigger] b[i],
    ) by {
        assert(b[i] == share[i - e - 1]);
    }
    assert(b[e] == 0x5c);
    if rest.len() > 0 {
        assert(b[f] == rest[0]);
    }
    lemma_end_is(Seps::Backslash, b, 8, e);
    lemma_end_is(Seps::Backslash, b, e + 1, f);
    assert(b.subrange(8, e) =~= server);
    assert(b.subrange(e + 1, f) =~= share);
}

/// Any other name behind `\\?\` goes up to the next backslash.
pub proof fn law_a_verbatim_name(name: Seq<u8>, rest: Seq<u8>)
    requires
        name.len() > 0,
        name[0] != 0x55,
        name.len() < 2 || name[1] != 0x3a,
        forall|i: int| 0 <= i < name.len() ==> #[trigger] name[i] != 0x5c,
        rest.len() == 0 || rest[0] == 0x5c,
    ensures
        ({
            let p = PathView {
                platform: Platform::Windows,
                bytes: seq![0x5cu8, 0x5cu8, 0x3fu8, 0x5cu8] + name + rest,
            };
            &&& path::absolute(p)
            &&& path::prefix_of(p).kind == PrefixKind::Verbatim
            &&& path::prefix_of(p).verbatim()
            &&& path::prefix_of(p).first == name
            &&& path::prefix_of(p).len() == 4 + name.len()
        }),
{
    let b = seq![0x5cu8, 0x5cu8, 0x3fu8, 0x5cu8] + name + rest;
    let e = 4 + name.len() as int;
    assert forall|i: int| 4 <= i < e implies !path::is_sep(Seps::Backslash, #[trigger] b[i]) by {
        assert(b[i] == name[i - 4]);
    }
    if rest.len() > 0 {
        assert(b[e] == rest[0]);
    }
    lemma_end_is(Seps::Backslash, b, 4, e);
    assert(b.subrange(4, e) =~= name);
    assert(b[4] == name[0]);
    if name.len() > 1 {
        assert(b[5] == name[1]);
    } else if rest.len() > 0 {
        assert(b[5] == rest[0]);
    }
}

proof fn lemma_one_name(tail: Seq<u8>)
    requires
        tail.len() > 0,
        forall|i: int| 0 <= i < tail.len() ==> #[trigger] tail[i] != 0x2f && tail[i] != 0x5c,
        tail.len() < 2 || tail[1] != 0x3a,
    ensures
        ({
            let q = PathView { platform: Platform::Windows, bytes: tail };
            &&& path::prefix_of(q).kind == PrefixKind::Nothing
            &&& !path::rooted(q)
            &&& path::names(q) == seq![tail]
        }),
{
    let q = PathView { platform: Platform::Windows, bytes: tail };
    let w = Seps::Either;
    let n = tail.len() as int;
    law_a_path_without_a_prefix_is_relative(tail);
    assert(path::body(q) == 0);
    lemma_end_is(w, tail, 0, n);
    assert(path::component_start(w, tail, 0) == 0);
    assert(path::component_start(w, tail, n) == n);
    assert(path::spans_from(w, tail, n) =~= Seq::<(int, int)>::empty());
    assert(path::spans_from(w, tail, 0) =~= seq![(0int, n)]);
    assert(tail.subrange(0, n) =~= tail);
    assert(path::names(q) =~= seq![tail]);
}

/// A name that is put behind a path which is taken as it is written stands behind its
/// names, and all are written with backslashes. What leads nowhere leaves the names as
/// they are; where there are none, the root stays where there was one.
pub proof fn law_a_verbatim_path_is_written_anew(p: PathView, tail: Seq<u8>)
    requires
        p.platform == Platform::Windows,
        path::prefix_of(p).verbatim(),
        tail.len() > 0,
        forall|i: int| 0 <= i < tail.len() ==> #[trigger] tail[i] != 0x2f && tail[i] != 0x5c,
        tail.len() < 2 || tail[1] != 0x3a,
    ensures
        ({
            let head = p.bytes.take(path::prefix_of(p).len());
            let j = path::joined(p, tail).bytes;
            &&& tail != seq![0x2eu8] && tail != seq![0x2eu8, 0x2eu8] ==> j == head
                + path::behind_each(path::names(p)) + seq![0x5cu8] + tail
            &&& tail == seq![0x2eu8] && path::names(p).len() > 0 ==> j == head + path::behind_each(
                path::names(p),
            )
            &&& tail == seq![0x2eu8] && path::names(p).len() == 0 && path::rooted(p) ==> j == head
                + seq![0x5cu8]
            &&& tail == seq![0x2eu8] && path::names(p).len() == 0 && !path::rooted(p) ==> j == head
        }),
{
    let names = path::names(p);
    let none = Seq::<Seq<u8>>::empty();
    let q = p.with(tail);
    lemma_one_name(tail);
    path::lemma_prefix(p);
    law_two_dots_lead_back(names, none, tail);
    law_names_are_written_with_backslashes(names, tail);
    assert(none.push(tail) =~= seq![tail]);
    let head = p.bytes.take(path::prefix_of(p).len());
    assert(p.bytes.subrange(0, path::prefix_of(p).len()) =~= head);
    let j = path::joined(p, tail).bytes;
    if tail != seq![0x2eu8] && tail != seq![0x2eu8, 0x2eu8] {
        assert(path::walked(names, path::names(q)) == names.push(tail));
        assert(j =~= head + path::behind_each(names) + seq![0x5cu8] + tail);
    }
    if tail == seq![0x2eu8] {
        assert(path::walked(names, path::names(q)) == names);
        if names.len() == 0 {
            assert(path::behind_each(names) =~= Seq::<u8>::empty());
            assert(head + Seq::<u8>::empty() =~= head);
        }
    }
}

/// Behind a drive alone everything is left that the path says on it, its root included.
pub proof fn law_what_is_left_behind_a_drive(c: u8, rest: Seq<u8>)
    requires
        0x41 <= c <= 0x5a || 0x61 <= c <= 0x7a,
    ensures
        ({
            let p = PathView { platform: Platform::Windows, bytes: seq![c, 0x3au8] + rest };
            let base = PathView { platform: Platform::Windows, bytes: seq![c, 0x3au8] };
            let left = path::below(p, base);
            &&& left is Some
            &&& left->0.bytes == p.bytes.subrange(2, path::meaning_end(p))
        }),
{
    let b = seq![c, 0x3au8];
    let p = PathView { platform: Platform::Windows, bytes: b + rest };
    let base = PathView { platform: Platform::Windows, bytes: b };
    law_a_drive_needs_a_root(b);
    law_a_drive_needs_a_root(p.bytes);
    assert(path::prefix_of(p).first =~= path::prefix_of(base).first);
    assert(path::component_start(Seps::Either, b, 2) == 2);
    assert(path::spans_from(Seps::Either, b, 2) =~= Seq::<(int, int)>::empty());
    assert(path::names(base) =~= Seq::<Seq<u8>>::empty());
    assert(path::names(p).subrange(0, 0) =~= path::names(base));
}

} // verus!
