//! The built-in file browser: where it is, what is selected, and what a click
//! means. The listing itself comes from elsewhere.
use vstd::prelude::*;
use vstd::utf8;

use crate::config::Platform;
use crate::content::ListEntry;
use crate::path::{self, FilePath, PathView};
use crate::text::{self, chars_of, push_chars, push_str, string_of};

verus! {

/// What activating a row does.
#[derive(Debug, PartialEq)]
pub enum Activate {
    /// It is a directory: list it.
    Descend(FilePath),
    /// It is a file: preview it.
    Preview(FilePath),
}

/// The browser pane.
#[derive(Debug)]
pub struct Browser {
    open: bool,
    dir: FilePath,
    entries: Vec<ListEntry>,
    cursor: usize,
    loading: bool,
    failed: bool,
}

/// `x`, brought into the range from `low` to `high`.
pub open spec fn clamped(x: int, low: int, high: int) -> int {
    if x < low {
        low
    } else if x > high {
        high
    } else {
        x
    }
}

/// The last place of `len`, 0 where there is none.
pub open spec fn last_place(len: nat) -> int {
    if len == 0 {
        0
    } else {
        len - 1
    }
}

impl Browser {
    /// Whether the pane is open.
    pub closed spec fn opened(&self) -> bool {
        self.open
    }

    /// The directory it is in.
    pub closed spec fn at(&self) -> PathView {
        self.dir@
    }

    /// The rows of the listing.
    pub closed spec fn rows(&self) -> Seq<ListEntry> {
        self.entries@
    }

    /// The place of the selected row.
    pub closed spec fn place(&self) -> int {
        self.cursor as int
    }

    /// Whether a listing is on its way.
    pub closed spec fn waiting(&self) -> bool {
        self.loading
    }

    /// Whether the directory could not be listed.
    pub closed spec fn broken(&self) -> bool {
        self.failed
    }

    /// The selected place is a row, or 0 where there are no rows, and a directory that
    /// could not be listed has none.
    pub open spec fn wf(&self) -> bool {
        &&& 0 <= self.place() <= last_place(self.rows().len())
        &&& self.broken() ==> self.rows().len() == 0
    }

    /// A pane that was never opened.
    pub fn new() -> (r: Browser)
        ensures
            r.wf(),
            !r.opened(),
            r.at() == PathView::none(),
            r.rows() == Seq::<ListEntry>::empty(),
            r.place() == 0,
            !r.waiting(),
            !r.broken(),
    {
        let none: Vec<u8> = Vec::new();
        Browser {
            open: false,
            dir: FilePath::from_bytes(none),
            entries: Vec::new(),
            cursor: 0,
            loading: false,
            failed: false,
        }
    }

    /// Whether the pane is open.
    pub fn is_open(&self) -> (r: bool)
        ensures
            r == self.opened(),
    {
        self.open
    }

    /// Closes the pane and keeps its place.
    pub fn close(&mut self)
        ensures
            !final(self).opened(),
            final(self).at() == old(self).at(),
            final(self).rows() == old(self).rows(),
            final(self).place() == old(self).place(),
            final(self).waiting() == old(self).waiting(),
            final(self).broken() == old(self).broken(),
    {
        self.open = false;
    }

    /// The directory it is in.
    pub fn dir(&self) -> (r: &FilePath)
        ensures
            r@ == self.at(),
    {
        &self.dir
    }

    /// The rows of the listing.
    pub fn entries(&self) -> (r: &Vec<ListEntry>)
        ensures
            r@ == self.rows(),
    {
        &self.entries
    }

    /// The place of the selected row.
    pub fn cursor(&self) -> (r: usize)
        ensures
            r == self.place(),
    {
        self.cursor
    }

    /// Whether a listing is on its way.
    pub fn is_loading(&self) -> (r: bool)
        ensures
            r == self.waiting(),
    {
        self.loading
    }

    /// Whether the directory could not be listed.
    pub fn has_failed(&self) -> (r: bool)
        ensures
            r == self.broken(),
    {
        self.failed
    }

    /// Opens the pane on `dir`, or moves it there. The listing of the directory
    /// before is dropped: it would be wrong to click on.
    pub fn show(&mut self, dir: FilePath)
        ensures
            final(self).wf(),
            final(self).opened(),
            final(self).at() == dir@,
            final(self).rows() == Seq::<ListEntry>::empty(),
            final(self).place() == 0,
            final(self).waiting(),
            !final(self).broken(),
    {
        self.open = true;
        self.dir = dir;
        self.entries = Vec::new();
        self.cursor = 0;
        self.loading = true;
        self.failed = false;
    }

    /// Opens the pane where it was closed, with the old listing on screen until
    /// the new one arrives.
    pub fn reopen(&mut self)
        requires
            old(self).wf(),
        ensures
            final(self).wf(),
            final(self).opened(),
            final(self).waiting(),
            final(self).at() == old(self).at(),
            final(self).rows() == old(self).rows(),
            final(self).place() == old(self).place(),
            final(self).broken() == old(self).broken(),
    {
        self.open = true;
        self.loading = true;
    }

    /// Takes a listing of `dir`. One of another directory than this is refused:
    /// it arrived after the user moved on. The selection stays where it is, as
    /// far as there are rows.
    pub fn fill(&mut self, dir: &FilePath, entries: Vec<ListEntry>) -> (r: bool)
        requires
            old(self).wf(),
        ensures
            final(self).wf(),
            r == path::same_path(dir@, old(self).at()),
            final(self).opened() == old(self).opened(),
            final(self).at() == old(self).at(),
            !r ==> *final(self) == *old(self),
            r ==> {
                &&& final(self).rows() == entries@
                &&& final(self).place() == clamped(
                    old(self).place(),
                    0,
                    last_place(entries@.len()),
                )
                &&& !final(self).waiting()
                &&& !final(self).broken()
            },
    {
        if !dir.same(&self.dir) {
            return false;
        }
        self.entries = entries;
        let n: usize = self.entries.len();
        if n == 0 {
            self.cursor = 0;
        } else if self.cursor >= n {
            self.cursor = n - 1;
        }
        self.loading = false;
        self.failed = false;
        true
    }

    /// The listing of `dir` could not be made. The pane stays open and says so.
    pub fn fail(&mut self, dir: &FilePath) -> (r: bool)
        requires
            old(self).wf(),
        ensures
            final(self).wf(),
            r == path::same_path(dir@, old(self).at()),
            final(self).opened() == old(self).opened(),
            final(self).at() == old(self).at(),
            !r ==> *final(self) == *old(self),
            r ==> {
                &&& final(self).rows() == Seq::<ListEntry>::empty()
                &&& final(self).place() == 0
                &&& !final(self).waiting()
                &&& final(self).broken()
            },
    {
        if !dir.same(&self.dir) {
            return false;
        }
        self.entries = Vec::new();
        self.cursor = 0;
        self.loading = false;
        self.failed = true;
        true
    }

    /// Moves the selection by `delta`, as far as there are rows. It does not wrap.
    pub fn move_cursor(&mut self, delta: isize)
        requires
            old(self).wf(),
        ensures
            final(self).wf(),
            final(self).place() == clamped(
                old(self).place() + delta,
                0,
                last_place(old(self).rows().len()),
            ),
            final(self).opened() == old(self).opened(),
            final(self).at() == old(self).at(),
            final(self).rows() == old(self).rows(),
            final(self).waiting() == old(self).waiting(),
            final(self).broken() == old(self).broken(),
    {
        let n: usize = self.entries.len();
        let to: i128 = self.cursor as i128 + delta as i128;
        self.cursor = if n == 0 || to < 0 {
            0
        } else if to >= n as i128 {
            n - 1
        } else {
            to as usize
        };
    }

    /// Selects a row. A place behind the last row is the last row.
    pub fn select(&mut self, index: usize)
        requires
            old(self).wf(),
        ensures
            final(self).wf(),
            final(self).place() == clamped(index as int, 0, last_place(old(self).rows().len())),
            final(self).opened() == old(self).opened(),
            final(self).at() == old(self).at(),
            final(self).rows() == old(self).rows(),
            final(self).waiting() == old(self).waiting(),
            final(self).broken() == old(self).broken(),
    {
        let n: usize = self.entries.len();
        self.cursor = if n == 0 {
            0
        } else if index >= n {
            n - 1
        } else {
            index
        };
    }

    /// What the row at `index` leads to.
    pub fn activate(&self, index: usize) -> (r: Option<Activate>)
        ensures
            r is Some <==> index < self.rows().len(),
            index < self.rows().len() ==> ({
                let row = self.rows()[index as int];
                let path = path::joined(self.at(), utf8::encode_utf8(row.name@));
                match r->0 {
                    Activate::Descend(p) => row.is_dir && p@ == path,
                    Activate::Preview(p) => !row.is_dir && p@ == path,
                }
            }),
    {
        if index >= self.entries.len() {
            return None;
        }
        let entry = &self.entries[index];
        let path = self.dir.join_str(entry.name.as_str());
        if entry.is_dir {
            Some(Activate::Descend(path))
        } else {
            Some(Activate::Preview(path))
        }
    }

    /// The directory above this one; `None` at the root, and above a path that
    /// has nothing above it.
    pub fn parent(&self) -> (r: Option<FilePath>)
        ensures
            path::opt_path(r) == (match path::parent_of(self.at()) {
                Some(b) => if b.len() > 0 {
                    Some(b)
                } else {
                    None
                },
                None => None,
            }),
    {
        match self.dir.parent() {
            Some(parent) => if parent.is_empty() {
                None
            } else {
                Some(parent)
            },
            None => None,
        }
    }
}

/// Where the browser opens, given what is on screen: in the directory that is
/// shown, next to the file that is shown, at home, in the working directory.
/// `is_dir` is whether `current` is a directory.
pub fn start_dir(
    platform: Platform,
    current: Option<FilePath>,
    is_dir: bool,
    home: Option<FilePath>,
    working: Option<FilePath>,
) -> (r: FilePath)
    ensures
        r@ == ({
            let fallback = match (path::opt_path(home), path::opt_path(working)) {
                (Some(h), _) => h,
                (None, Some(w)) => w,
                (None, None) => PathView { platform, bytes: utf8::encode_utf8("."@) },
            };
            match path::opt_path(current) {
                Some(b) => if b.len() == 0 {
                    fallback
                } else if is_dir {
                    b
                } else {
                    match path::parent_of(b) {
                        Some(p) => if p.len() > 0 {
                            p
                        } else {
                            fallback
                        },
                        None => fallback,
                    }
                },
                None => fallback,
            }
        }),
{
    match current {
        Some(path) => {
            if !path.is_empty() {
                if is_dir {
                    return path;
                }
                match path.parent() {
                    Some(parent) => if !parent.is_empty() {
                        return parent;
                    },
                    None => {},
                }
            }
        },
        None => {},
    }
    match home {
        Some(dir) => dir,
        None => match working {
            Some(dir) => dir,
            None => FilePath::new_on(platform, "."),
        },
    }
}

/// The home directory, out of `$HOME` and `%USERPROFILE%`: the first that is set,
/// where it is absolute.
pub fn home(var: Option<FilePath>, profile: Option<FilePath>) -> (r: Option<FilePath>)
    ensures
        path::opt_path(r) == ({
            let dir = if var is Some {
                path::opt_path(var)
            } else {
                path::opt_path(profile)
            };
            match dir {
                Some(p) => if path::absolute(p) {
                    Some(p)
                } else {
                    None
                },
                None => None,
            }
        }),
{
    let dir = match var {
        Some(dir) => Some(dir),
        None => profile,
    };
    match dir {
        Some(dir) => if dir.is_absolute() {
            Some(dir)
        } else {
            None
        },
        None => None,
    }
}

/// The longest text that fits the pane's header, in characters.
pub const MAX_HEADER: usize = 44;

/// A path with the home directory written as `~`.
pub open spec fn homely(dir: PathView, home: Option<PathView>) -> Seq<char> {
    match home {
        None => text::lossy_text(dir.bytes),
        Some(home) => match path::below(dir, home) {
            None => text::lossy_text(dir.bytes),
            Some(rest) => if rest.len() == 0 {
                "~"@
            } else {
                "~/"@ + text::lossy_text(rest.bytes)
            },
        },
    }
}

/// `s`, cut from the front to fit the header.
pub open spec fn fitted(s: Seq<char>) -> Seq<char> {
    if s.len() <= MAX_HEADER {
        s
    } else {
        "…"@ + s.skip(s.len() - (MAX_HEADER - 1))
    }
}

/// A path short enough for the header: `~` for the home directory, and only the
/// end of what is still too long.
pub fn compact_with(dir: &FilePath, home: Option<&FilePath>) -> (r: String)
    ensures
        r@ == fitted(
            homely(
                dir@,
                match home {
                    Some(h) => Some(h@),
                    None => None,
                },
            ),
        ),
{
    let rest = match home {
        Some(home) => dir.strip_prefix(home),
        None => None,
    };
    let text = match rest {
        Some(rest) => if rest.is_empty() {
            chars_of("~")
        } else {
            let mut out = chars_of("~/");
            let shown = rest.display();
            push_str(&mut out, shown.as_str());
            out
        },
        None => {
            let shown = dir.display();
            chars_of(shown.as_str())
        },
    };
    if text.len() <= MAX_HEADER {
        return string_of(text.as_slice());
    }
    let mut out = chars_of("…");
    let from: usize = text.len() - (MAX_HEADER - 1);
    push_chars(&mut out, vstd::slice::slice_subrange(text.as_slice(), from, text.len()));
    string_of(out.as_slice())
}

// ---------------------------------------------------------------------------
// Laws
// ---------------------------------------------------------------------------
/// A header always fits the pane, and a text that fits is not touched.
pub proof fn law_a_header_fits(s: Seq<char>)
    ensures
        fitted(s).len() <= MAX_HEADER,
        s.len() <= MAX_HEADER ==> fitted(s) == s,
{
    reveal_strlit("…");
}

/// The selection never leaves the list, however far it is moved, and a list of
/// one row or none has one place.
pub proof fn law_a_step_stays_in_the_list(place: int, delta: int, len: nat)
    ensures
        0 <= clamped(place + delta, 0, last_place(len)) <= last_place(len),
        len > 0 ==> clamped(place + delta, 0, last_place(len)) < len,
        0 <= place + delta < len ==> clamped(place + delta, 0, last_place(len)) == place + delta,
{
}

/// What is brought into a range is the number itself where it lies in it, and else the
/// end that is nearer.
pub proof fn law_the_nearest_in_the_range(x: int, low: int, high: int)
    requires
        low <= high,
    ensures
        low <= clamped(x, low, high) <= high,
        low <= x <= high ==> clamped(x, low, high) == x,
        x <= low ==> clamped(x, low, high) == low,
        x >= high ==> clamped(x, low, high) == high,
{
}

/// A header that is too long keeps its end: behind an ellipsis stand the last
/// characters of the text, as many as there is room for.
pub proof fn law_a_long_header_keeps_its_end(s: Seq<char>, i: int)
    requires
        s.len() > 44,
    ensures
        fitted(s).len() == 44,
        fitted(s)[0] == '…',
        0 < i < 44 ==> fitted(s)[i] == s[s.len() - 44 + i],
{
    reveal_strlit("…");
}

/// The home directory is written as `~`, and what is below it by the way that leads
/// there from it; any other directory is written whole.
pub proof fn law_home_is_a_tilde(dir: PathView, home: PathView)
    ensures
        homely(dir, None) == text::lossy_text(dir.bytes),
        path::below(dir, home) is None ==> homely(dir, Some(home)) == text::lossy_text(dir.bytes),
        path::below(dir, home) is Some && path::below(dir, home)->0.bytes.len() == 0 ==> homely(
            dir,
            Some(home),
        ) == "~"@,
        path::below(dir, home) is Some && path::below(dir, home)->0.bytes.len() > 0 ==> homely(
            dir,
            Some(home),
        ) == "~/"@ + text::lossy_text(path::below(dir, home)->0.bytes),
{
}

} // verus!
