//! The files that were previewed last: one absolute path per line, the newest
//! first.
use vstd::prelude::*;
use vstd::utf8;

use crate::config::Platform;
use crate::path::{self, FilePath, PathView};
use crate::probe;
use crate::text::{self, chars_of, lines_of, push_str, string_of, trim};

verus! {

/// How many paths are remembered.
pub const CAP: usize = 10;

/// The name of the file that holds them.
pub const FILE: &'static str = "recent";

/// The paths that were previewed last, the newest first.
#[derive(Debug, PartialEq)]
pub struct Recent {
    paths: Vec<FilePath>,
}

impl View for Recent {
    type V = Seq<PathView>;

    closed spec fn view(&self) -> Seq<PathView> {
        path::path_bytes(self.paths@)
    }
}

/// Whether a list is one that is kept: not too long, absolute paths only, none
/// twice.
pub open spec fn orderly(paths: Seq<PathView>) -> bool {
    &&& paths.len() <= CAP
    &&& forall|i: int|
        0 <= i < paths.len() ==> path::absolute(#[trigger] paths[i])
    &&& forall|i: int, j: int|
        0 <= i < j < paths.len() ==> !path::same_path(#[trigger] paths[i], #[trigger] paths[j])
}

/// `paths` without those that are the same as `path`.
pub open spec fn others(paths: Seq<PathView>, path: PathView) -> Seq<PathView>
    decreases paths.len(),
{
    if paths.len() == 0 {
        Seq::empty()
    } else {
        let before = others(paths.drop_last(), path);
        if path::same_path(paths.last(), path) {
            before
        } else {
            before.push(paths.last())
        }
    }
}

/// The first of `paths`, as many as are remembered.
pub open spec fn capped(paths: Seq<PathView>) -> Seq<PathView> {
    if paths.len() <= CAP {
        paths
    } else {
        paths.subrange(0, CAP as int)
    }
}

/// Whether adding `path` changes the list.
pub open spec fn is_news(paths: Seq<PathView>, path: PathView) -> bool {
    path::absolute(path) && !(paths.len() > 0 && path::same_path(paths[0], path))
}

/// The list with `path` on top.
pub open spec fn with_newest(paths: Seq<PathView>, path: PathView) -> Seq<PathView> {
    if is_news(paths, path) {
        capped(seq![path] + others(paths, path))
    } else {
        paths
    }
}

/// Whether `path` is in the list.
pub open spec fn listed(paths: Seq<PathView>, path: PathView) -> bool {
    exists|i: int| 0 <= i < paths.len() && path::same_path(#[trigger] paths[i], path)
}

/// The list that `rows` of the file give: what is no absolute path is passed over,
/// and so is what is there already.
pub open spec fn gathered(platform: Platform, rows: Seq<Seq<char>>) -> Seq<PathView>
    decreases rows.len(),
{
    if rows.len() == 0 {
        Seq::empty()
    } else {
        let before = gathered(platform, rows.drop_last());
        let path = PathView {
            platform,
            bytes: utf8::encode_utf8(text::trimmed(rows.last())),
        };
        if before.len() < CAP && path::absolute(path) && !listed(before, path) {
            before.push(path)
        } else {
            before
        }
    }
}

/// The file that holds `paths`: a line each. A path that is not UTF-8 cannot be
/// written and is left out.
pub open spec fn serialised(paths: Seq<PathView>) -> Seq<char>
    decreases paths.len(),
{
    if paths.len() == 0 {
        Seq::empty()
    } else {
        (if utf8::valid_utf8(paths[0].bytes) {
            utf8::decode_utf8(paths[0].bytes).push('\n')
        } else {
            Seq::empty()
        }) + serialised(paths.drop_first())
    }
}

impl Recent {
    /// The list is one that is kept.
    pub open spec fn wf(&self) -> bool {
        orderly(self@)
    }

    /// No paths.
    pub fn new() -> (r: Recent)
        ensures
            r@ == Seq::<PathView>::empty(),
            r.wf(),
    {
        let r = Recent { paths: Vec::new() };
        assert(r@ =~= Seq::<PathView>::empty());
        r
    }

    /// The paths, the newest first.
    pub fn paths(&self) -> (r: &Vec<FilePath>)
        ensures
            path::path_bytes(r@) == self@,
    {
        &self.paths
    }

    /// A copy of the list.
    pub fn copy(&self) -> (r: Recent)
        ensures
            r@ == self@,
    {
        let mut paths: Vec<FilePath> = Vec::new();
        let mut i: usize = 0;
        while i < self.paths.len()
            invariant
                i <= self.paths.len(),
                path::path_bytes(paths@) == self@.subrange(0, i as int),
            decreases self.paths.len() - i,
        {
            let ghost before = paths@;
            paths.push(self.paths[i].copy());
            assert(path::path_bytes(paths@) =~= path::path_bytes(before).push(self@[i as int]));
            i = i + 1;
        }
        let r = Recent { paths };
        assert(r@ =~= self@);
        r
    }

    /// Puts `path` on top. A relative path is refused: it would mean another file
    /// in another process. Returns whether the list changed.
    pub fn add(&mut self, path: &FilePath) -> (r: bool)
        requires
            old(self).wf(),
        ensures
            final(self).wf(),
            r == is_news(old(self)@, path@),
            final(self)@ == with_newest(old(self)@, path@),
    {
        if !path.is_absolute() {
            return false;
        }
        if self.paths.len() > 0 && self.paths[0].same(path) {
            assert(self@[0] == self.paths@[0]@);
            return false;
        }
        assert(self@.len() > 0 ==> self@[0] == self.paths@[0]@);
        let ghost all = self@;
        let mut next: Vec<FilePath> = Vec::new();
        next.push(path.copy());
        let mut i: usize = 0;
        assert(all.subrange(0, 0) =~= Seq::<PathView>::empty());
        assert(path::path_bytes(next@) =~= seq![path@] + others(all.subrange(0, 0), path@));
        while i < self.paths.len()
            invariant
                i <= self.paths.len(),
                all == path::path_bytes(self.paths@),
                path::path_bytes(next@) == seq![path@] + others(all.subrange(0, i as int), path@),
            decreases self.paths.len() - i,
        {
            let ghost before = next@;
            let ghost upto = all.subrange(0, i + 1);
            assert(upto.drop_last() =~= all.subrange(0, i as int));
            if !self.paths[i].same(path) {
                next.push(self.paths[i].copy());
                assert(path::path_bytes(next@) =~= path::path_bytes(before).push(all[i as int]));
            }
            assert(path::path_bytes(next@) =~= seq![path@] + others(upto, path@));
            i = i + 1;
        }
        assert(all.subrange(0, all.len() as int) =~= all);
        let ghost full = path::path_bytes(next@);
        next.truncate(CAP);
        assert(path::path_bytes(next@) =~= capped(full));
        proof {
            lemma_newest_is_orderly(all, path@);
        }
        self.paths = next;
        true
    }

    /// The paths that still exist: `present` is, for each, whether it does.
    pub fn existing(&self, present: &[bool]) -> (r: Vec<FilePath>)
        requires
            present.len() == self@.len(),
        ensures
            path::path_bytes(r@) == probe::kept(self@, present@),
    {
        let mut out: Vec<FilePath> = Vec::new();
        let mut i: usize = 0;
        assert(present@.subrange(0, 0) =~= Seq::<bool>::empty());
        assert(path::path_bytes(out@) =~= probe::kept(self@, present@.subrange(0, 0)));
        while i < self.paths.len()
            invariant
                i <= self.paths.len(),
                self.paths.len() == present.len(),
                path::path_bytes(out@) == probe::kept(self@, present@.subrange(0, i as int)),
            decreases self.paths.len() - i,
        {
            let ghost upto = present@.subrange(0, i + 1);
            assert(upto.drop_last() =~= present@.subrange(0, i as int));
            let ghost before = out@;
            if present[i] {
                out.push(self.paths[i].copy());
                assert(path::path_bytes(out@) =~= path::path_bytes(before).push(self@[i as int]));
            }
            i = i + 1;
        }
        assert(present@.subrange(0, present@.len() as int) =~= present@);
        out
    }

    /// Reads the list from the text of its file, where paths are those of Unix.
    pub fn parse(text: &str) -> (r: Recent)
        ensures
            r.wf(),
            r@ == gathered(Platform::Unix, text::lines(text@)),
    {
        Recent::parse_on(Platform::Unix, text)
    }

    /// Reads the list from the text of its file. A line that is no absolute path
    /// is passed over: half a list is better than none.
    pub fn parse_on(platform: Platform, text: &str) -> (r: Recent)
        ensures
            r.wf(),
            r@ == gathered(platform, text::lines(text@)),
    {
        let cs = chars_of(text);
        let rows = lines_of(cs.as_slice());
        let ghost all = text::lines(text@);
        let mut recent = Recent::new();
        let mut i: usize = 0;
        assert(all.subrange(0, 0) =~= Seq::<Seq<char>>::empty());
        while i < rows.len()
            invariant
                i <= rows.len(),
                text::contents(rows@) == all,
                recent.wf(),
                recent@ == gathered(platform, all.subrange(0, i as int)),
            decreases rows.len() - i,
        {
            let ghost upto = all.subrange(0, i + 1);
            assert(upto.drop_last() =~= all.subrange(0, i as int));
            assert(upto.last() == rows@[i as int]@);
            let line = string_of(trim(rows[i].as_slice()));
            let path = FilePath::new_on(platform, line.as_str());
            if recent.paths.len() < CAP && path.is_absolute() && !recent.has(&path) {
                let ghost before = recent.paths@;
                let ghost b = path@;
                recent.paths.push(path);
                assert(recent@ =~= path::path_bytes(before).push(b));
                assert(recent.wf()) by {
                    let was = path::path_bytes(before);
                    assert forall|j: int, k: int| 0 <= j < k < recent@.len() implies !path::same_path(
                        #[trigger] recent@[j],
                        #[trigger] recent@[k],
                    ) by {
                        assert(recent@[j] == was[j]);
                        if k == was.len() {
                            assert(!path::same_path(was[j], b));
                        } else {
                            assert(recent@[k] == was[k]);
                        }
                    }
                    assert forall|j: int| 0 <= j < recent@.len() implies path::absolute(#[trigger] recent@[j],
                    ) by {
                        if j < was.len() {
                            assert(recent@[j] == was[j]);
                        }
                    }
                }
            }
            i = i + 1;
        }
        assert(all.subrange(0, all.len() as int) =~= all);
        recent
    }

    /// Whether `path` is in the list.
    fn has(&self, path: &FilePath) -> (r: bool)
        ensures
            r == listed(self@, path@),
    {
        let mut i: usize = 0;
        while i < self.paths.len()
            invariant
                i <= self.paths.len(),
                forall|k: int| 0 <= k < i ==> !path::same_path(#[trigger] self@[k], path@),
            decreases self.paths.len() - i,
        {
            if self.paths[i].same(path) {
                assert(path::same_path(self@[i as int], path@));
                return true;
            }
            assert(self@[i as int] == self.paths@[i as int]@);
            i = i + 1;
        }
        false
    }

    /// The text of the file that holds the list.
    pub fn serialise(&self) -> (r: String)
        ensures
            r@ == serialised(self@),
    {
        let mut out: Vec<char> = Vec::new();
        let mut i: usize = 0;
        assert(self@.skip(0) =~= self@);
        assert(out@ + serialised(self@) =~= serialised(self@));
        while i < self.paths.len()
            invariant
                i <= self.paths.len(),
                out@ + serialised(self@.skip(i as int)) == serialised(self@),
            decreases self.paths.len() - i,
        {
            let ghost rest = self@.skip(i as int);
            let ghost before = out@;
            assert(rest.drop_first() =~= self@.skip(i + 1));
            assert(rest[0] == self.paths@[i as int]@);
            match self.paths[i].to_str() {
                Some(text) => {
                    proof {
                        vstd::utf8::encode_utf8_decode_utf8(text@);
                    }
                    push_str(&mut out, text.as_str());
                    out.push('\n');
                    assert(out@ =~= before + utf8::decode_utf8(rest[0].bytes).push('\n'));
                },
                None => {},
            }
            assert(out@ + serialised(self@.skip(i + 1)) =~= before + serialised(rest));
            i = i + 1;
        }
        assert(self@.skip(i as int) =~= Seq::<PathView>::empty());
        assert(out@ =~= serialised(self@));
        string_of(out.as_slice())
    }
}

/// Where the list is kept, out of the variables that decide it.
pub open spec fn state_dir(
    local_app_data: Option<PathView>,
    xdg_state: Option<PathView>,
    home: Option<PathView>,
    windows: bool,
) -> Option<PathView> {
    let sekio = utf8::encode_utf8("sekio"@);
    if windows {
        match local_app_data {
            Some(dir) => if dir.len() > 0 {
                Some(path::joined(dir, sekio))
            } else {
                None
            },
            None => None,
        }
    } else if xdg_state is Some && path::absolute(xdg_state->0) {
        Some(path::joined(xdg_state->0, sekio))
    } else if home is Some && path::absolute(home->0) {
        Some(
            path::joined(
                path::joined(path::joined(home->0, utf8::encode_utf8(".local"@)), utf8::encode_utf8("state"@)),
                sekio,
            ),
        )
    } else {
        None
    }
}

/// The directory where the list is kept: on Windows in `%LOCALAPPDATA%`, elsewhere
/// in `$XDG_STATE_HOME` where that is absolute, else below `$HOME`.
pub fn state_dir_from(
    local_app_data: Option<FilePath>,
    xdg_state: Option<FilePath>,
    home: Option<FilePath>,
    windows: bool,
) -> (r: Option<FilePath>)
    ensures
        path::opt_path(r) == state_dir(
            path::opt_path(local_app_data),
            path::opt_path(xdg_state),
            path::opt_path(home),
            windows,
        ),
{
    if windows {
        return match local_app_data {
            Some(dir) => if dir.is_empty() {
                None
            } else {
                Some(dir.join_str("sekio"))
            },
            None => None,
        };
    }
    match xdg_state {
        Some(dir) => if dir.is_absolute() {
            return Some(dir.join_str("sekio"));
        },
        None => {},
    }
    match home {
        Some(dir) => if dir.is_absolute() {
            Some(dir.join_str(".local").join_str("state").join_str("sekio"))
        } else {
            None
        },
        None => None,
    }
}

/// The file where the list is kept.
pub fn state_file(
    local_app_data: Option<FilePath>,
    xdg_state: Option<FilePath>,
    home: Option<FilePath>,
    windows: bool,
) -> (r: Option<FilePath>)
    ensures
        path::opt_path(r) == (match state_dir(
            path::opt_path(local_app_data),
            path::opt_path(xdg_state),
            path::opt_path(home),
            windows,
        ) {
            Some(dir) => Some(path::joined(dir, utf8::encode_utf8(FILE@))),
            None => None,
        }),
{
    match state_dir_from(local_app_data, xdg_state, home, windows) {
        Some(dir) => Some(dir.join_str(FILE)),
        None => None,
    }
}

// ---------------------------------------------------------------------------
// Laws
// ---------------------------------------------------------------------------
proof fn lemma_others(paths: Seq<PathView>, path: PathView)
    requires
        forall|i: int|
            0 <= i < paths.len() ==> path::absolute(#[trigger] paths[i]),
        forall|i: int, j: int|
            0 <= i < j < paths.len() ==> !path::same_path(#[trigger] paths[i], #[trigger] paths[j]),
    ensures
        others(paths, path).len() <= paths.len(),
        forall|i: int|
            0 <= i < others(paths, path).len() ==> path::absolute(#[trigger] others(paths, path)[i],
            ) && !path::same_path(others(paths, path)[i], path) && listed(
                paths,
                others(paths, path)[i],
            ),
        forall|i: int, j: int|
            0 <= i < j < others(paths, path).len() ==> !path::same_path(
                #[trigger] others(paths, path)[i],
                #[trigger] others(paths, path)[j],
            ),
    decreases paths.len(),
{
    if paths.len() > 0 {
        let init = paths.drop_last();
        assert forall|i: int| 0 <= i < init.len() implies path::absolute(#[trigger] init[i],
        ) by {
            assert(init[i] == paths[i]);
        }
        assert forall|i: int, j: int| 0 <= i < j < init.len() implies !path::same_path(
            #[trigger] init[i],
            #[trigger] init[j],
        ) by {
            assert(init[i] == paths[i] && init[j] == paths[j]);
        }
        lemma_others(init, path);
        let before = others(init, path);
        let after = others(paths, path);
        assert forall|i: int| 0 <= i < after.len() implies path::absolute(#[trigger] after[i],
        ) && !path::same_path(
            after[i],
            path,
        ) && listed(paths, after[i]) by {
            if i < before.len() {
                assert(after[i] == before[i]);
                let k = choose|k: int| 0 <= k < init.len() && path::same_path(#[trigger] init[k], before[i]);
                assert(path::same_path(paths[k], after[i]));
            } else {
                assert(path::same_path(paths[paths.len() - 1], after[i]));
            }
        }
        assert forall|i: int, j: int| 0 <= i < j < after.len() implies !path::same_path(
            #[trigger] after[i],
            #[trigger] after[j],
        ) by {
            assert(after[i] == before[i]);
            if j < before.len() {
                assert(after[j] == before[j]);
            } else {
                let k = choose|k: int| 0 <= k < init.len() && path::same_path(#[trigger] init[k], before[i]);
                assert(!path::same_path(paths[k], paths[paths.len() - 1]));
            }
        }
    }
}

/// The list stays one that is kept.
proof fn lemma_newest_is_orderly(paths: Seq<PathView>, path: PathView)
    requires
        orderly(paths),
        path::absolute(path),
    ensures
        orderly(capped(seq![path] + others(paths, path))),
{
    lemma_others(paths, path);
    let rest = others(paths, path);
    let full = seq![path] + rest;
    let list = capped(full);
    assert forall|i: int, j: int| 0 <= i < j < list.len() implies !path::same_path(
        #[trigger] list[i],
        #[trigger] list[j],
    ) by {
        assert(list[i] == full[i] && list[j] == full[j]);
        assert(full[j] == rest[j - 1]);
        if i > 0 {
            assert(full[i] == rest[i - 1]);
        }
    }
    assert forall|i: int| 0 <= i < list.len() implies path::absolute(#[trigger] list[i],
    ) by {
        assert(list[i] == full[i]);
        if i > 0 {
            assert(full[i] == rest[i - 1]);
        }
    }
}

/// What is added last comes first, and is there once.
pub proof fn law_the_newest_comes_first(paths: Seq<PathView>, path: PathView)
    requires
        orderly(paths),
        path::absolute(path),
    ensures
        with_newest(paths, path).len() > 0,
        path::same_path(with_newest(paths, path)[0], path),
        orderly(with_newest(paths, path)),
        with_newest(with_newest(paths, path), path) == with_newest(paths,
            path,
        ),
{
    lemma_newest_is_orderly(paths, path);
}

/// Whether a path can be kept in the file: it is UTF-8, on one line, and has no
/// white space at either end.
pub open spec fn storable(path: PathView) -> bool {
    let text = utf8::decode_utf8(path.bytes);
    &&& utf8::valid_utf8(path.bytes)
    &&& !text.contains('\n')
    &&& text::trimmed(text) == text
}

/// A path that is stored is the first line of the file.
proof fn lemma_stored_line(path: PathView, tail: Seq<char>)
    requires
        storable(path),
        path.len() > 0,
    ensures
        text::lines(utf8::decode_utf8(path.bytes) + seq!['\n'] + tail) == seq![
            utf8::decode_utf8(path.bytes),
        ] + text::lines(tail),
{
    let body = utf8::decode_utf8(path.bytes);
    assert forall|i: int| 0 <= i < body.len() implies #[trigger] body[i] != '\n' by {
        assert(body.contains(body[i]));
    }
    assert(body.len() > 0) by {
        vstd::utf8::decode_utf8_encode_utf8(path.bytes);
        if body.len() == 0 {
            assert(utf8::encode_utf8(body) =~= Seq::<u8>::empty());
        }
    }
    assert(body.last() != '\r') by {
        if body.last() == '\r' {
            lemma_trimmed_end(body);
        }
    }
    text::lemma_line_then(body, seq!['\n'], tail);
}

proof fn lemma_lines_of_file(paths: Seq<PathView>)
    requires
        forall|i: int| 0 <= i < paths.len() ==> storable(#[trigger] paths[i]) && paths[i].len() > 0,
    ensures
        text::lines(serialised(paths)) == Seq::new(paths.len(), |i: int| utf8::decode_utf8(paths[i].bytes)),
    decreases paths.len(),
{
    let wanted = Seq::new(paths.len(), |i: int| utf8::decode_utf8(paths[i].bytes));
    if paths.len() == 0 {
        assert(text::lines(serialised(paths)) =~= wanted);
    } else {
        let rest = paths.drop_first();
        assert forall|i: int| 0 <= i < rest.len() implies storable(#[trigger] rest[i])
            && rest[i].len() > 0 by {
            assert(rest[i] == paths[i + 1]);
        }
        lemma_lines_of_file(rest);
        assert(storable(paths[0]));
        let body = utf8::decode_utf8(paths[0].bytes);
        let tail = serialised(rest);
        lemma_stored_line(paths[0], tail);
        assert(serialised(paths) =~= body + seq!['\n'] + tail);
        let less = Seq::new(rest.len(), |i: int| utf8::decode_utf8(rest[i].bytes));
        assert(seq![body] + less =~= wanted);
    }
}

/// Trimmed text does not end in white space.
proof fn lemma_trimmed_end(s: Seq<char>)
    requires
        s.len() > 0,
        crate::text::white_space(s.last()),
    ensures
        text::trimmed(s) != s,
{
    lemma_start_shorter(s);
    let t = crate::text::trim_start(s);
    lemma_end_shorter(t);
    if text::trimmed(s) == s {
        assert(t.len() == s.len());
        lemma_start_same(s);
        assert(t == s);
        lemma_end_shorter(s.drop_last());
    }
}

proof fn lemma_start_shorter(s: Seq<char>)
    ensures
        crate::text::trim_start(s).len() <= s.len(),
    decreases s.len(),
{
    if s.len() > 0 && crate::text::white_space(s[0]) {
        lemma_start_shorter(s.drop_first());
    }
}

proof fn lemma_start_same(s: Seq<char>)
    requires
        crate::text::trim_start(s).len() == s.len(),
    ensures
        crate::text::trim_start(s) == s,
{
    if s.len() > 0 && crate::text::white_space(s[0]) {
        lemma_start_shorter(s.drop_first());
    }
}

proof fn lemma_end_shorter(s: Seq<char>)
    ensures
        crate::text::trim_end(s).len() <= s.len(),
    decreases s.len(),
{
    if s.len() > 0 && crate::text::white_space(s.last()) {
        lemma_end_shorter(s.drop_last());
    }
}

proof fn lemma_gathered(platform: Platform, paths: Seq<PathView>, n: int)
    requires
        orderly(paths),
        0 <= n <= paths.len(),
        forall|i: int|
            0 <= i < paths.len() ==> storable(#[trigger] paths[i]) && paths[i].platform == platform,
    ensures
        gathered(platform, Seq::new(n as nat, |i: int| utf8::decode_utf8(paths[i].bytes))) == paths.subrange(0, n),
    decreases n,
{
    let rows = Seq::new(n as nat, |i: int| utf8::decode_utf8(paths[i].bytes));
    if n == 0 {
        assert(paths.subrange(0, 0) =~= Seq::<PathView>::empty());
        assert(rows =~= Seq::<Seq<char>>::empty());
    } else {
        lemma_gathered(platform, paths, n - 1);
        assert(rows.drop_last() =~= Seq::new((n - 1) as nat, |i: int| utf8::decode_utf8(paths[i].bytes)));
        let before = paths.subrange(0, n - 1);
        let path = paths[n - 1];
        assert(storable(path));
        vstd::utf8::decode_utf8_encode_utf8(path.bytes);
        assert(!listed(before, path)) by {
            if listed(before, path) {
                let i = choose|i: int| 0 <= i < before.len() && path::same_path(#[trigger] before[i], path);
                assert(!path::same_path(paths[i], paths[n - 1]));
            }
        }
        assert(before.push(path) =~= paths.subrange(0, n));
    }
}

/// What is saved is what is read: a list of paths that the file can hold comes
/// back as it was.
pub proof fn law_a_saved_list_is_read_back(platform: Platform, paths: Seq<PathView>)
    requires
        orderly(paths),
        forall|i: int|
            0 <= i < paths.len() ==> storable(#[trigger] paths[i]) && paths[i].platform == platform,
    ensures
        gathered(platform, text::lines(serialised(paths))) == paths,
{
    lemma_lines_of_file(paths);
    lemma_gathered(platform, paths, paths.len() as int);
    assert(paths.subrange(0, paths.len() as int) =~= paths);
}

proof fn lemma_one_less(paths: Seq<PathView>, path: PathView, k: int)
    requires
        0 <= k < paths.len(),
        path::same_path(paths[k], path),
        forall|i: int|
            0 <= i < paths.len() && i != k ==> !path::same_path(#[trigger] paths[i], path),
    ensures
        others(paths, path) == paths.remove(k),
    decreases paths.len(),
{
    let init = paths.drop_last();
    if k == paths.len() - 1 {
        assert forall|i: int| 0 <= i < init.len() implies !path::same_path(
            #[trigger] init[i],
            path,
        ) by {
            assert(init[i] == paths[i]);
        }
        lemma_no_others(init, path);
        assert(init =~= paths.remove(k));
    } else {
        assert forall|i: int| 0 <= i < init.len() && i != k implies !path::same_path(
            #[trigger] init[i],
            path,
        ) by {
            assert(init[i] == paths[i]);
        }
        assert(init[k] == paths[k]);
        lemma_one_less(init, path, k);
        assert(paths[paths.len() - 1] == paths.last());
        assert(init.remove(k).push(paths.last()) =~= paths.remove(k));
    }
}

proof fn lemma_no_others(paths: Seq<PathView>, path: PathView)
    requires
        forall|i: int| 0 <= i < paths.len() ==> !path::same_path(#[trigger] paths[i], path),
    ensures
        others(paths, path) == paths,
    decreases paths.len(),
{
    if paths.len() > 0 {
        let init = paths.drop_last();
        assert forall|i: int| 0 <= i < init.len() implies !path::same_path(
            #[trigger] init[i],
            path,
        ) by {
            assert(init[i] == paths[i]);
        }
        lemma_no_others(init, path);
        assert(paths[paths.len() - 1] == paths.last());
        assert(init.push(paths.last()) =~= paths);
    } else {
        assert(others(paths, path) =~= paths);
    }
}

/// A path that is new goes on top of the others, which keep their order; where there
/// are ten already the oldest makes room.
pub proof fn law_a_new_path_goes_on_top(paths: Seq<PathView>, path: PathView)
    requires
        orderly(paths),
        path::absolute(path),
        forall|i: int| 0 <= i < paths.len() ==> !path::same_path(#[trigger] paths[i], path),
    ensures
        paths.len() < 10 ==> with_newest(paths, path) == seq![path] + paths,
        paths.len() == 10 ==> with_newest(paths, path) == seq![path] + paths.take(9),
{
    lemma_no_others(paths, path);
    if paths.len() > 0 {
        assert(!path::same_path(paths[0], path));
    }
    if paths.len() == 10 {
        assert(with_newest(paths, path) =~= seq![path] + paths.take(9));
    }
}

/// A path that is in the list moves to the top, and the others keep their order; the
/// list gets no longer. One that is on top already, or is not absolute, changes
/// nothing.
pub proof fn law_a_known_path_moves_to_the_top(paths: Seq<PathView>, path: PathView, k: int)
    requires
        orderly(paths),
        path::absolute(path),
        0 <= k < paths.len(),
        path::same_path(paths[k], path),
    ensures
        k > 0 ==> with_newest(paths, path) == seq![path] + paths.remove(k),
        k == 0 ==> with_newest(paths, path) == paths,
{
    assert forall|i: int| 0 <= i < paths.len() && i != k implies !path::same_path(
        #[trigger] paths[i],
        path,
    ) by {
        if path::same_path(paths[i], path) {
            path::law_same_path_is_an_equivalence(paths[i], path, paths[k]);
            path::law_same_path_is_an_equivalence(paths[k], path, paths[i]);
            if i < k {
                assert(!path::same_path(paths[i], paths[k]));
            } else {
                assert(!path::same_path(paths[k], paths[i]));
            }
        }
    }
    lemma_one_less(paths, path, k);
    if k > 0 {
        assert(!path::same_path(paths[0], path));
        assert(with_newest(paths, path) =~= seq![path] + paths.remove(k));
    }
}

/// A path that is not absolute is never remembered.
pub proof fn law_a_relative_path_is_not_remembered(paths: Seq<PathView>, path: PathView)
    requires
        !path::absolute(path),
    ensures
        with_newest(paths, path) == paths,
        !is_news(paths, path),
{
}

/// A file is read row by row: a row that is an absolute path, white space around it
/// aside, goes behind those before it, unless it is there already or there are ten.
pub proof fn law_a_file_is_read_row_by_row(platform: Platform, rows: Seq<Seq<char>>, row: Seq<char>)
    ensures
        gathered(platform, Seq::empty()) == Seq::<PathView>::empty(),
        ({
            let before = gathered(platform, rows);
            let path = PathView { platform, bytes: utf8::encode_utf8(text::trimmed(row)) };
            let known = exists|i: int|
                0 <= i < before.len() && path::same_path(#[trigger] before[i], path);
            &&& path::absolute(path) && !known && before.len() < 10 ==> gathered(
                platform,
                rows.push(row),
            ) == before.push(path)
            &&& !path::absolute(path) || known || before.len() >= 10 ==> gathered(
                platform,
                rows.push(row),
            ) == before
        }),
{
    assert(rows.push(row).drop_last() =~= rows);
}

/// A file is written path by path, a line each, the first of the list first; a path
/// that is no text is left out.
pub proof fn law_a_file_is_written_path_by_path(path: PathView, rest: Seq<PathView>)
    ensures
        serialised(Seq::empty()) == Seq::<char>::empty(),
        utf8::valid_utf8(path.bytes) ==> serialised(seq![path] + rest) == utf8::decode_utf8(
            path.bytes,
        ) + seq!['\n'] + serialised(rest),
        !utf8::valid_utf8(path.bytes) ==> serialised(seq![path] + rest) == serialised(rest),
{
    let all = seq![path] + rest;
    assert(all.drop_first() =~= rest);
    let t = utf8::decode_utf8(path.bytes);
    assert(t.push('\n') =~= t + seq!['\n']);
    assert(Seq::<char>::empty() + serialised(rest) =~= serialised(rest));
}

/// The list is kept where the platform keeps such things: in the directory that the
/// variable names, where it names one, and else below home; nowhere where nothing
/// useful is set.
pub proof fn law_where_the_list_is_kept(
    local: Option<PathView>,
    state: Option<PathView>,
    home: Option<PathView>,
)
    ensures
        local is Some && local->0.bytes.len() > 0 ==> state_dir(local, state, home, true) == Some(
            path::joined(local->0, utf8::encode_utf8("sekio"@)),
        ),
        local is None || local->0.bytes.len() == 0 ==> state_dir(local, state, home, true) is None,
        state is Some && path::absolute(state->0) ==> state_dir(local, state, home, false) == Some(
            path::joined(state->0, utf8::encode_utf8("sekio"@)),
        ),
        !(state is Some && path::absolute(state->0)) && home is Some && path::absolute(home->0)
            ==> state_dir(local, state, home, false) == Some(
            path::joined(
                path::joined(
                    path::joined(home->0, utf8::encode_utf8(".local"@)),
                    utf8::encode_utf8("state"@),
                ),
                utf8::encode_utf8("sekio"@),
            ),
        ),
        !(state is Some && path::absolute(state->0)) && !(home is Some && path::absolute(home->0))
            ==> state_dir(local, state, home, false) is None,
{
}

} // verus!
