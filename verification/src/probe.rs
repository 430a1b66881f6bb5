//! Asking the disk: which of some paths pass a test that only the outside can
//! answer.
//!
//! The test is a closure, and it may answer differently each time. What is
//! stated here holds whatever it answers.
use vstd::prelude::*;
use vstd::utf8;

use crate::path::{self, FilePath, PathView};

verus! {

/// Whether `test` may answer `answer` of the path `b`.
pub open spec fn said<F: Fn(&FilePath) -> bool>(test: F, b: PathView, answer: bool) -> bool {
    exists|p: FilePath| p@ == b && #[trigger] call_ensures(test, (&p,), answer)
}

/// Whether `test` can be asked of every path.
pub open spec fn askable<F: Fn(&FilePath) -> bool>(test: F) -> bool {
    forall|p: FilePath| #[trigger] call_requires(test, (&p,))
}

/// Whether `r` is the first of `paths` that `test` said yes of: it said no of all
/// before.
pub open spec fn first_found<F: Fn(&FilePath) -> bool>(
    paths: Seq<PathView>,
    test: F,
    r: Option<PathView>,
) -> bool {
    match r {
        Some(b) => exists|i: int|
            {
                &&& 0 <= i < paths.len()
                &&& #[trigger] paths[i] == b
                &&& said(test, b, true)
                &&& forall|j: int| 0 <= j < i ==> said(test, #[trigger] paths[j], false)
            },
        None => forall|j: int| 0 <= j < paths.len() ==> said(test, #[trigger] paths[j], false),
    }
}

/// The first of `paths` that `test` says yes of. None behind it is asked of.
pub fn first_that<F: Fn(&FilePath) -> bool>(paths: Vec<FilePath>, test: F) -> (r: Option<FilePath>)
    requires
        askable(test),
    ensures
        first_found(path::path_bytes(paths@), test, crate::path::opt_path(r)),
{
    let ghost all = path::path_bytes(paths@);
    let mut i: usize = 0;
    while i < paths.len()
        invariant
            i <= paths.len(),
            askable(test),
            all == path::path_bytes(paths@),
            forall|j: int| 0 <= j < i ==> said(test, #[trigger] all[j], false),
        decreases paths.len() - i,
    {
        let yes = test(&paths[i]);
        assert(said(test, all[i as int], yes)) by {
            assert(call_ensures(test, (&paths@[i as int],), yes));
        }
        if yes {
            return Some(paths[i].copy());
        }
        i = i + 1;
    }
    None
}

/// Those of `paths` that `flags` keeps, in order.
pub open spec fn kept(paths: Seq<PathView>, flags: Seq<bool>) -> Seq<PathView>
    decreases flags.len(),
{
    if flags.len() == 0 {
        Seq::empty()
    } else {
        let before = kept(paths, flags.drop_last());
        if flags.last() {
            before.push(paths[flags.len() - 1])
        } else {
            before
        }
    }
}

/// Whether `r` are the first of `paths`, `cap` at most, that `test` said yes of.
pub open spec fn some_found<F: Fn(&FilePath) -> bool>(
    paths: Seq<PathView>,
    cap: nat,
    test: F,
    r: Seq<PathView>,
) -> bool {
    exists|flags: Seq<bool>|
        {
            &&& flags.len() <= paths.len()
            &&& forall|j: int| 0 <= j < flags.len() ==> said(test, paths[j], #[trigger] flags[j])
            &&& r == #[trigger] kept(paths, flags)
            &&& r.len() <= cap
            &&& flags.len() == paths.len() || r.len() == cap
        }
}

/// The first of `paths`, `cap` at most, that `test` says yes of.
pub fn those_that<F: Fn(&FilePath) -> bool>(paths: Vec<FilePath>, cap: usize, test: F) -> (r: Vec<
    FilePath,
>)
    requires
        askable(test),
    ensures
        some_found(path::path_bytes(paths@), cap as nat, test, path::path_bytes(r@)),
{
    let ghost all = path::path_bytes(paths@);
    let mut out: Vec<FilePath> = Vec::new();
    let ghost mut flags: Seq<bool> = Seq::empty();
    let mut i: usize = 0;
    assert(path::path_bytes(out@) =~= kept(all, flags));
    while i < paths.len() && out.len() < cap
        invariant
            i <= paths.len(),
            askable(test),
            all == path::path_bytes(paths@),
            flags.len() == i,
            forall|j: int| 0 <= j < flags.len() ==> said(test, all[j], #[trigger] flags[j]),
            path::path_bytes(out@) == kept(all, flags),
            out.len() <= cap,
        decreases paths.len() - i,
    {
        let yes = test(&paths[i]);
        assert(said(test, all[i as int], yes)) by {
            assert(call_ensures(test, (&paths@[i as int],), yes));
        }
        let ghost before = flags;
        proof {
            flags = flags.push(yes);
        }
        assert(flags.drop_last() =~= before);
        if yes {
            let ghost had = out@;
            out.push(paths[i].copy());
            assert(path::path_bytes(out@) =~= path::path_bytes(had).push(all[i as int]));
        }
        i = i + 1;
    }
    assert(path::path_bytes(out@).len() == out.len());
    out
}

/// `name` in each of `dirs`, in order.
pub open spec fn in_each(dirs: Seq<PathView>, name: Seq<u8>) -> Seq<PathView> {
    Seq::new(dirs.len(), |i: int| path::joined(dirs[i], name))
}

/// `name` in each of `dirs`, in order.
pub fn name_in_each(dirs: &Vec<FilePath>, name: &FilePath) -> (r: Vec<FilePath>)
    ensures
        path::path_bytes(r@) == in_each(path::path_bytes(dirs@), name@.bytes),
{
    let ghost all = in_each(path::path_bytes(dirs@), name@.bytes);
    let mut paths: Vec<FilePath> = Vec::new();
    let mut i: usize = 0;
    while i < dirs.len()
        invariant
            i <= dirs.len(),
            all == in_each(path::path_bytes(dirs@), name@.bytes),
            path::path_bytes(paths@) == all.subrange(0, i as int),
        decreases dirs.len() - i,
    {
        let ghost before = paths@;
        paths.push(dirs[i].join(name));
        assert(path::path_bytes(paths@) =~= path::path_bytes(before).push(all[i as int]));
        i = i + 1;
    }
    assert(all.subrange(0, all.len() as int) =~= all);
    paths
}

/// Where a program called `name` could be, in these directories: nowhere where it
/// has no name, and not in the directory that an empty entry stands for.
pub open spec fn program_places(dirs: Seq<PathView>, name: Seq<char>) -> Seq<PathView>
    decreases dirs.len(),
{
    if dirs.len() == 0 || name.len() == 0 {
        Seq::empty()
    } else {
        let before = program_places(dirs.drop_last(), name);
        if dirs.last().len() == 0 {
            before
        } else {
            before.push(path::joined(dirs.last(), utf8::encode_utf8(name)))
        }
    }
}

/// The program called `name`: the first in these directories that `executable` says
/// can be run.
pub fn find_on_path<F: Fn(&FilePath) -> bool>(
    dirs: &Vec<FilePath>,
    name: &str,
    executable: F,
) -> (r: Option<FilePath>)
    requires
        askable(executable),
    ensures
        first_found(
            program_places(path::path_bytes(dirs@), name@),
            executable,
            path::opt_path(r),
        ),
{
    let ghost all = path::path_bytes(dirs@);
    let mut places: Vec<FilePath> = Vec::new();
    if crate::text::chars_of(name).len() == 0 {
        return None;
    }
    let mut i: usize = 0;
    assert(all.subrange(0, 0) =~= Seq::<PathView>::empty());
    assert(path::path_bytes(places@) =~= program_places(all.subrange(0, 0), name@));
    while i < dirs.len()
        invariant
            i <= dirs.len(),
            all == path::path_bytes(dirs@),
            name@.len() > 0,
            path::path_bytes(places@) == program_places(all.subrange(0, i as int), name@),
        decreases dirs.len() - i,
    {
        let ghost upto = all.subrange(0, i + 1);
        let ghost before = path::path_bytes(places@);
        assert(upto.drop_last() =~= all.subrange(0, i as int));
        assert(upto.last() == dirs@[i as int]@);
        if !dirs[i].is_empty() {
            places.push(dirs[i].join_str(name));
            assert(path::path_bytes(places@) =~= before.push(
                path::joined(upto.last(), utf8::encode_utf8(name@)),
            ));
        }
        i = i + 1;
    }
    assert(all.subrange(0, all.len() as int) =~= all);
    first_that(places, executable)
}

// ---------------------------------------------------------------------------
// Laws
// ---------------------------------------------------------------------------
/// What is kept is what was said yes of, in order: one answer more adds its path where
/// it is yes, and nothing where it is no.
pub proof fn law_what_was_said_yes_of_is_kept(paths: Seq<PathView>, flags: Seq<bool>, yes: bool)
    ensures
        kept(paths, Seq::empty()) == Seq::<PathView>::empty(),
        kept(paths, flags.push(yes)) == (if yes {
            kept(paths, flags).push(paths[flags.len() as int])
        } else {
            kept(paths, flags)
        }),
{
    assert(flags.push(yes).drop_last() =~= flags);
}

/// A name is looked for in every directory, in the order of the directories.
pub proof fn law_every_directory_is_looked_in(dirs: Seq<PathView>, name: Seq<u8>, i: int)
    requires
        0 <= i < dirs.len(),
    ensures
        in_each(dirs, name).len() == dirs.len(),
        in_each(dirs, name)[i] == path::joined(dirs[i], name),
{
}

/// A program is looked for in every directory that has a name, in their order, and
/// nowhere where it has no name itself.
pub proof fn law_where_a_program_is_looked_for(dirs: Seq<PathView>, dir: PathView, name: Seq<char>)
    ensures
        program_places(Seq::empty(), name) == Seq::<PathView>::empty(),
        program_places(dirs, Seq::empty()) == Seq::<PathView>::empty(),
        name.len() > 0 && dir.bytes.len() > 0 ==> program_places(dirs.push(dir), name)
            == program_places(dirs, name).push(path::joined(dir, utf8::encode_utf8(name))),
        dir.bytes.len() == 0 ==> program_places(dirs.push(dir), name) == program_places(dirs, name),
{
    assert(dirs.push(dir).drop_last() =~= dirs);
    if name.len() == 0 {
        assert(program_places(dirs, name) =~= Seq::<PathView>::empty());
    }
}

/// What is found is one of the paths that were looked at, it was said yes of, and of
/// every path before it no; where nothing is found, of every path.
pub proof fn law_what_is_found_is_the_first<F: Fn(&FilePath) -> bool>(
    paths: Seq<PathView>,
    test: F,
    b: PathView,
)
    ensures
        first_found(paths, test, Some(b)) ==> paths.contains(b) && said(test, b, true),
        first_found(paths, test, Some(b)) && paths.len() > 0 && paths[0] != b ==> said(
            test,
            paths[0],
            false,
        ),
        first_found(paths, test, None) ==> forall|j: int|
            0 <= j < paths.len() ==> said(test, #[trigger] paths[j], false),
        !first_found(Seq::empty(), test, Some(b)),
{
}

} // verus!
