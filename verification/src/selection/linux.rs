//! Finding a file in what a Linux desktop offers: the selection, the clipboard,
//! and the folders that the file manager has open.
//!
//! There is no way to ask a file manager what is selected, so this reads text
//! that other programs put in shared buffers, and takes from it only what is the
//! path of a file.
use vstd::prelude::*;
use vstd::utf8;

use crate::config::Platform;
use crate::path::{self, holds_byte, FilePath, PathView};
use crate::probe::{self, first_that, name_in_each, those_that};
use crate::selection::{Origin, Selection};
use crate::style;
use crate::text::{
    self, chars_of, find_char, has_char, lines_of, push_str, same_chars, spells, string_of,
    to_lower, trim,
};

verus! {

/// How many lines of a clipboard are looked at.
pub const MAX_LINES: usize = 32;

/// The longest name of a file, in bytes.
pub const MAX_NAME_LEN: usize = 255;

/// How many open folders are tried.
pub const MAX_LOCATIONS: usize = 16;

// ---------------------------------------------------------------------------
// Text that is a path
// ---------------------------------------------------------------------------
/// Whether `c` is an ASCII letter.
pub open spec fn letter(c: char) -> bool {
    'a' <= c <= 'z' || 'A' <= c <= 'Z'
}

/// Whether `c` may stand in a scheme.
pub open spec fn scheme_char(c: char) -> bool {
    letter(c) || '0' <= c <= '9' || c == '+' || c == '-' || c == '.'
}

/// The scheme that `s` begins with, if it has one: a letter, then letters,
/// digits, `+`, `-` and `.`, up to a colon.
pub open spec fn scheme(s: Seq<char>) -> Option<Seq<char>> {
    let n = text::first_at(s, ':', 0);
    let head = s.subrange(0, n);
    if 0 < n < s.len() && letter(s[0]) && forall|i: int| 0 <= i < n ==> scheme_char(#[trigger] s[i]) {
        Some(head)
    } else {
        None
    }
}

/// The value of a hexadecimal digit.
pub open spec fn hex(b: u8) -> Option<u8> {
    if 0x30 <= b <= 0x39 {
        Some((b - 0x30) as u8)
    } else if 0x61 <= b <= 0x66 {
        Some((b - 0x61 + 10) as u8)
    } else if 0x41 <= b <= 0x46 {
        Some((b - 0x41 + 10) as u8)
    } else {
        None
    }
}

/// `b` with each `%XX` made the byte it stands for. A `%` that no two digits
/// follow stays as it is.
pub open spec fn decoded(b: Seq<u8>) -> Seq<u8>
    decreases b.len(),
{
    if b.len() == 0 {
        Seq::empty()
    } else if b[0] == 0x25 && b.len() >= 3 && hex(b[1]) is Some && hex(b[2]) is Some {
        seq![(hex(b[1])->0 * 16 + hex(b[2])->0) as u8] + decoded(b.skip(3))
    } else {
        seq![b[0]] + decoded(b.skip(1))
    }
}

/// Whether `s` begins with `prefix`, case aside.
pub open spec fn starts_folded(s: Seq<char>, prefix: Seq<char>) -> bool {
    text::starts(text::lower(s), prefix)
}

/// The path part of what follows `file:`; none where it names another machine.
pub open spec fn local_part(rest: Seq<char>) -> Option<Seq<char>> {
    if text::starts(rest, "//"@) {
        let after = rest.skip(2);
        let n = text::first_at(after, '/', 0);
        let host = after.subrange(0, n);
        if n >= after.len() || (n > 0 && text::lower(host) != "localhost"@) {
            None
        } else {
            Some(after.skip(n))
        }
    } else {
        Some(rest)
    }
}

/// The path that a `file:` URI names.
pub open spec fn uri_path(uri: Seq<char>) -> Option<PathView> {
    if !starts_folded(uri, "file:"@) {
        None
    } else {
        match local_part(uri.skip(5)) {
            None => None,
            Some(part) => {
                let b = decoded(utf8::encode_utf8(part));
                if path::absolute(PathView::unix(b)) && !b.contains(0u8) {
                    Some(PathView::unix(b))
                } else {
                    None
                }
            },
        }
    }
}

/// The path that a line of text is, if it is one: a `file:` URI or an absolute
/// path.
pub open spec fn line_path(line: Seq<char>) -> Option<PathView> {
    let t = text::trimmed(line);
    match scheme(t) {
        Some(s) => if text::lower(s) == "file"@ {
            uri_path(t)
        } else {
            None
        },
        None => if t.len() > 0 && t[0] == '/' {
            Some(PathView::unix(utf8::encode_utf8(t)))
        } else {
            None
        },
    }
}

/// The paths among `parts`, in order.
pub open spec fn line_paths(parts: Seq<Seq<char>>) -> Seq<PathView>
    decreases parts.len(),
{
    if parts.len() == 0 {
        Seq::empty()
    } else {
        let before = line_paths(parts.drop_last());
        match line_path(parts.last()) {
            Some(b) => before.push(b),
            None => before,
        }
    }
}

/// The first lines of a text, as many as are looked at.
pub open spec fn first_lines(text: Seq<char>) -> Seq<Seq<char>> {
    let all = text::lines(text);
    if all.len() <= MAX_LINES {
        all
    } else {
        all.subrange(0, MAX_LINES as int)
    }
}

/// The scheme that `s` begins with, if it has one.
pub fn scheme_of(s: &[char]) -> (r: Option<&[char]>)
    ensures
        match (r, scheme(s@)) {
            (Some(found), Some(wanted)) => found@ == wanted,
            (None, None) => true,
            _ => false,
        },
{
    let n = find_char(s, ':', 0);
    if n == 0 || n >= s.len() {
        return None;
    }
    let c = s[0];
    if !(('a' <= c && c <= 'z') || ('A' <= c && c <= 'Z')) {
        return None;
    }
    let mut i: usize = 0;
    while i < n
        invariant
            i <= n < s.len(),
            n == text::first_at(s@, ':', 0),
            forall|k: int| 0 <= k < i ==> scheme_char(#[trigger] s@[k]),
        decreases n - i,
    {
        let c = s[i];
        if !(('a' <= c && c <= 'z') || ('A' <= c && c <= 'Z') || ('0' <= c && c <= '9') || c == '+'
            || c == '-' || c == '.') {
            assert(!scheme_char(s@[i as int]));
            return None;
        }
        i = i + 1;
    }
    Some(vstd::slice::slice_subrange(s, 0, n))
}

/// The value of a hexadecimal digit.
pub fn hex_digit(b: u8) -> (r: Option<u8>)
    ensures
        r == hex(b),
        r is Some ==> r->0 < 16,
{
    if 0x30 <= b && b <= 0x39 {
        Some(b - 0x30)
    } else if 0x61 <= b && b <= 0x66 {
        Some(b - 0x61 + 10)
    } else if 0x41 <= b && b <= 0x46 {
        Some(b - 0x41 + 10)
    } else {
        None
    }
}

/// Decodes the `%XX` escapes of `s`, as bytes: a name need not be text.
pub fn percent_decode(s: &str) -> (r: Vec<u8>)
    ensures
        r@ == decoded(utf8::encode_utf8(s@)),
{
    let b = s.as_bytes();
    let mut out: Vec<u8> = Vec::new();
    let mut i: usize = 0;
    assert(b@.skip(0) =~= b@);
    assert(out@ + decoded(b@) =~= decoded(b@));
    while i < b.len()
        invariant
            b@ == utf8::encode_utf8(s@),
            i <= b.len(),
            out@ + decoded(b@.skip(i as int)) == decoded(b@),
        decreases b.len() - i,
    {
        let ghost rest = b@.skip(i as int);
        let ghost before = out@;
        let mut done = false;
        if b[i] == 0x25 && b.len() - i >= 3 {
            match (hex_digit(b[i + 1]), hex_digit(b[i + 2])) {
                (Some(hi), Some(lo)) => {
                    out.push(hi * 16 + lo);
                    assert(rest.skip(3) =~= b@.skip(i + 3));
                    assert(out@ + decoded(b@.skip(i + 3)) =~= before + decoded(rest));
                    i = i + 3;
                    done = true;
                },
                _ => {},
            }
        }
        if !done {
            out.push(b[i]);
            assert(rest.skip(1) =~= b@.skip(i + 1));
            assert(out@ + decoded(b@.skip(i + 1)) =~= before + decoded(rest));
            i = i + 1;
        }
    }
    assert(b@.skip(i as int) =~= Seq::<u8>::empty());
    assert(out@ =~= decoded(b@));
    out
}

/// What is left of `s` behind `prefix`, which is in lower case; case aside.
pub fn strip_prefix_ignore_ascii_case<'a>(s: &'a [char], prefix: &str) -> (r: Option<&'a [char]>)
    ensures
        match r {
            Some(rest) => starts_folded(s@, prefix@) && rest@ == s@.skip(prefix@.len() as int),
            None => !starts_folded(s@, prefix@),
        },
{
    let p = chars_of(prefix);
    if s.len() < p.len() {
        return None;
    }
    let head = to_lower(vstd::slice::slice_subrange(s, 0, p.len()));
    assert(head@ =~= text::lower(s@).subrange(0, p@.len() as int));
    if same_chars(head.as_slice(), p.as_slice()) {
        Some(vstd::slice::slice_subrange(s, p.len(), s.len()))
    } else {
        None
    }
}

/// The path that the URI `uri` names: `file:///a%20b` names `/a b`. A URI of
/// another scheme or another machine names none, nor does one with a NUL in it.
pub fn path_from_uri(uri: &[char]) -> (r: Option<FilePath>)
    ensures
        path::opt_path(r) == uri_path(uri@),
{
    proof {
        reveal_strlit("file:");
        reveal_strlit("//");
    }
    let rest = match strip_prefix_ignore_ascii_case(uri, "file:") {
        Some(rest) => rest,
        None => {
            return None;
        },
    };
    let part = if rest.len() >= 2 && rest[0] == '/' && rest[1] == '/' {
        assert(rest@.subrange(0, 2) =~= "//"@);
        let after = vstd::slice::slice_subrange(rest, 2, rest.len());
        assert(after@ =~= rest@.skip(2));
        let n = find_char(after, '/', 0);
        if n >= after.len() {
            return None;
        }
        let host = to_lower(vstd::slice::slice_subrange(after, 0, n));
        if n > 0 && !spells(host.as_slice(), "localhost") {
            return None;
        }
        let part = vstd::slice::slice_subrange(after, n, after.len());
        assert(part@ =~= after@.skip(n as int));
        part
    } else {
        assert(!text::starts(rest@, "//"@)) by {
            if text::starts(rest@, "//"@) {
                assert(rest@.subrange(0, 2)[0] == '/' && rest@.subrange(0, 2)[1] == '/');
            }
        }
        rest
    };
    assert(local_part(uri@.skip(5)) == Some(part@));
    let text = string_of(part);
    let bytes = percent_decode(text.as_str());
    if bytes.len() == 0 || bytes[0] != crate::path::SLASH || holds_byte(bytes.as_slice(), 0) {
        return None;
    }
    Some(FilePath::from_bytes(bytes))
}

/// The path that one line of a clipboard is, if it is one.
pub fn candidate(line: &[char]) -> (r: Option<FilePath>)
    ensures
        path::opt_path(r) == line_path(line@),
{
    let t = trim(line);
    if t.len() == 0 {
        assert(scheme(t@) is None);
        return None;
    }
    match scheme_of(t) {
        Some(s) => {
            let s = to_lower(s);
            if spells(s.as_slice(), "file") {
                path_from_uri(t)
            } else {
                None
            }
        },
        None => {
            if t[0] == '/' {
                let text = string_of(t);
                Some(FilePath::new(text.as_str()))
            } else {
                None
            }
        },
    }
}

/// The paths that the first lines of `text` are.
pub fn candidates(text: &str) -> (r: Vec<FilePath>)
    ensures
        path::path_bytes(r@) == line_paths(first_lines(text@)),
{
    let cs = chars_of(text);
    let all = lines_of(cs.as_slice());
    assert(text::contents(all@) == text::lines(text@));
    let n: usize = if all.len() < MAX_LINES {
        all.len()
    } else {
        MAX_LINES
    };
    let mut out: Vec<FilePath> = Vec::new();
    let mut i: usize = 0;
    let ghost parts = first_lines(text@);
    assert(parts.len() == n);
    assert(parts.subrange(0, 0) =~= Seq::<Seq<char>>::empty());
    assert(path::path_bytes(out@) =~= line_paths(parts.subrange(0, 0)));
    while i < n
        invariant
            i <= n <= all.len(),
            parts.len() == n,
            forall|k: int| 0 <= k < n ==> all@[k]@ == #[trigger] parts[k],
            path::path_bytes(out@) == line_paths(parts.subrange(0, i as int)),
        decreases n - i,
    {
        let ghost upto = parts.subrange(0, i + 1);
        assert(upto.drop_last() =~= parts.subrange(0, i as int));
        assert(upto.last() == all@[i as int]@);
        let ghost before = out@;
        match candidate(all[i].as_slice()) {
            Some(p) => {
                let ghost b = p@;
                out.push(p);
                assert(path::path_bytes(out@) =~= path::path_bytes(before).push(b));
            },
            None => {},
        }
        i = i + 1;
    }
    assert(parts.subrange(0, n as int) =~= parts);
    out
}

/// The first line of `text` that is the path of a file that exists. Several
/// files arrive as one URI per line; the first that can be used is taken.
pub fn first_usable<F: Fn(&FilePath) -> bool>(text: &str, present: F) -> (r: Option<FilePath>)
    requires
        probe::askable(present),
    ensures
        probe::first_found(line_paths(first_lines(text@)), present, path::opt_path(r)),
{
    let paths = candidates(text);
    first_that(paths, present)
}

/// The name that a text is, if it is a plain file name: its first line, with no
/// directory in it.
pub open spec fn plain_name(text: Seq<char>) -> Option<Seq<u8>> {
    let all = text::lines(text);
    if all.len() == 0 {
        None
    } else {
        let t = text::trimmed(all[0]);
        if t.len() == 0 || utf8::encode_utf8(t).len() > MAX_NAME_LEN || t.contains('/') || t == "."@ || t
            == ".."@ || (exists|i: int| 0 <= i < t.len() && style::is_control(#[trigger] t[i])) || scheme(
            t,
        ) is Some {
            None
        } else {
            Some(utf8::encode_utf8(t))
        }
    }
}

fn has_control(cs: &[char]) -> (r: bool)
    ensures
        r == exists|i: int| 0 <= i < cs.len() && style::is_control(#[trigger] cs@[i]),
{
    let mut i: usize = 0;
    while i < cs.len()
        invariant
            i <= cs.len(),
            forall|k: int| 0 <= k < i ==> !style::is_control(#[trigger] cs@[k]),
        decreases cs.len() - i,
    {
        let c = cs[i];
        if c < ' ' || ('\u{7f}' <= c && c <= '\u{9f}') {
            assert(style::is_control(cs@[i as int]));
            return true;
        }
        i = i + 1;
    }
    false
}

/// `text` as a plain file name, if it is one: the name is about to be joined to a
/// directory that it did not come from.
pub fn bare_name(text: &str) -> (r: Option<FilePath>)
    ensures
        path::opt_path(r) == (match plain_name(text@) {
            Some(name) => Some(PathView::unix(name)),
            None => None,
        }),
{
    let cs = chars_of(text);
    let all = lines_of(cs.as_slice());
    assert(text::contents(all@) == text::lines(text@));
    if all.len() == 0 {
        return None;
    }
    assert(all@[0]@ == text::lines(text@)[0]);
    let t = trim(all[0].as_slice());
    if t.len() == 0 {
        return None;
    }
    let name = string_of(t);
    if name.as_str().as_bytes().len() > MAX_NAME_LEN {
        return None;
    }
    if has_char(t, '/') || spells(t, ".") || spells(t, "..") {
        return None;
    }
    if has_control(t) {
        return None;
    }
    if scheme_of(t).is_some() {
        return None;
    }
    Some(FilePath::new(name.as_str()))
}

// ---------------------------------------------------------------------------
// Replies of the bus
// ---------------------------------------------------------------------------
/// The string that is open at `i` and that `quote` closes, and where what follows
/// it starts; none where nothing closes it. A backslash takes the next character
/// as it is.
pub open spec fn closed_string(t: Seq<char>, i: int, quote: char) -> Option<(Seq<char>, int)>
    decreases t.len() + 1 - i,
{
    if i < 0 || i >= t.len() {
        None
    } else if t[i] == '\\' {
        if i + 1 >= t.len() {
            None
        } else {
            match closed_string(t, i + 2, quote) {
                Some(r) => Some((seq![t[i + 1]] + r.0, r.1)),
                None => None,
            }
        }
    } else if t[i] == quote {
        Some((Seq::empty(), i + 1))
    } else {
        match closed_string(t, i + 1, quote) {
            Some(r) => Some((seq![t[i]] + r.0, r.1)),
            None => None,
        }
    }
}

/// The strings in quotes, single or double, from `i` on. What follows a string
/// that nothing closes is not looked at.
pub open spec fn strings_from(t: Seq<char>, i: int) -> Seq<Seq<char>>
    decreases t.len() - i,
{
    if i < 0 || i >= t.len() {
        Seq::empty()
    } else if t[i] == '\'' || t[i] == '"' {
        match closed_string(t, i + 1, t[i]) {
            Some(r) => if i < r.1 <= t.len() {
                seq![r.0] + strings_from(t, r.1)
            } else {
                Seq::empty()
            },
            None => Seq::empty(),
        }
    } else {
        strings_from(t, i + 1)
    }
}

proof fn lemma_closed_bounds(t: Seq<char>, i: int, quote: char)
    requires
        0 <= i,
    ensures
        closed_string(t, i, quote) is Some ==> i < (closed_string(t, i, quote)->0).1 <= t.len(),
    decreases t.len() + 1 - i,
{
    if i < t.len() {
        if t[i] == '\\' {
            lemma_closed_bounds(t, i + 2, quote);
        } else if t[i] != quote {
            lemma_closed_bounds(t, i + 1, quote);
        }
    }
}

/// The string that is open at `from`.
fn read_string(t: &[char], from: usize, quote: char) -> (r: Option<(Vec<char>, usize)>)
    requires
        from <= t.len(),
    ensures
        match (r, closed_string(t@, from as int, quote)) {
            (Some(found), Some(wanted)) => {
                &&& found.0@ == wanted.0
                &&& found.1 == wanted.1
                &&& from < found.1 <= t.len()
            },
            (None, None) => true,
            _ => false,
        },
{
    let mut s: Vec<char> = Vec::new();
    let mut i: usize = from;
    proof {
        lemma_closed_bounds(t@, from as int, quote);
    }
    assert(match closed_string(t@, from as int, quote) {
        Some(r) => s@ + r.0 =~= r.0,
        None => true,
    });
    while i < t.len()
        invariant
            from <= i <= t.len(),
            match (closed_string(t@, from as int, quote), closed_string(t@, i as int, quote)) {
                (Some(a), Some(b)) => a.0 == s@ + b.0 && a.1 == b.1 && from < a.1 <= t.len(),
                (None, None) => true,
                _ => false,
            },
        decreases t.len() - i,
    {
        let c = t[i];
        if c == '\\' {
            if t.len() - i < 2 {
                return None;
            }
            let ghost before = s@;
            s.push(t[i + 1]);
            assert(match closed_string(t@, i + 2, quote) {
                Some(b) => before + (seq![t@[i + 1]] + b.0) =~= s@ + b.0,
                None => true,
            });
            i = i + 2;
        } else if c == quote {
            assert(s@ + Seq::<char>::empty() =~= s@);
            return Some((s, i + 1));
        } else {
            let ghost before = s@;
            s.push(c);
            assert(match closed_string(t@, i + 1, quote) {
                Some(b) => before + (seq![c] + b.0) =~= s@ + b.0,
                None => true,
            });
            i = i + 1;
        }
    }
    None
}

/// The strings in quotes in the reply of a bus tool, in either of the two forms
/// that the tools print.
pub fn quoted_strings(text: &str) -> (r: Vec<Vec<char>>)
    ensures
        text::contents(r@) == strings_from(text@, 0),
{
    let t = chars_of(text);
    let t = t.as_slice();
    let mut found: Vec<Vec<char>> = Vec::new();
    let mut i: usize = 0;
    assert(text::contents(found@) + strings_from(t@, 0) =~= strings_from(t@, 0));
    while i < t.len()
        invariant
            t@ == text@,
            i <= t.len(),
            text::contents(found@) + strings_from(t@, i as int) == strings_from(t@, 0),
        decreases t.len() - i,
    {
        let c = t[i];
        if c != '\'' && c != '"' {
            i = i + 1;
        } else {
            match read_string(t, i + 1, c) {
                None => {
                    assert(text::contents(found@) =~= strings_from(t@, 0));
                    return found;
                },
                Some((s, next)) => {
                    let ghost before = found@;
                    let ghost text_of = s@;
                    found.push(s);
                    assert(text::contents(found@) =~= text::contents(before).push(text_of));
                    assert(text::contents(found@) + strings_from(t@, next as int) =~= text::contents(before) + (
                    seq![text_of] + strings_from(t@, next as int)));
                    i = next;
                },
            }
        }
    }
    assert(text::contents(found@) =~= strings_from(t@, 0));
    found
}

/// The paths that `uris` name, in order.
pub open spec fn uri_paths(uris: Seq<Seq<char>>) -> Seq<PathView>
    decreases uris.len(),
{
    if uris.len() == 0 {
        Seq::empty()
    } else {
        let before = uri_paths(uris.drop_last());
        match uri_path(uris.last()) {
            Some(b) => before.push(b),
            None => before,
        }
    }
}

/// The folders that the file manager has open, out of the bus tool's reply: those
/// that are directories, the first few.
pub fn open_folders<F: Fn(&FilePath) -> bool>(reply: &str, is_dir: F) -> (r: Vec<FilePath>)
    requires
        probe::askable(is_dir),
    ensures
        probe::some_found(
            uri_paths(strings_from(reply@, 0)),
            MAX_LOCATIONS as nat,
            is_dir,
            path::path_bytes(r@),
        ),
{
    let uris = quoted_strings(reply);
    let ghost all = strings_from(reply@, 0);
    let mut paths: Vec<FilePath> = Vec::new();
    let mut i: usize = 0;
    assert(all.subrange(0, 0) =~= Seq::<Seq<char>>::empty());
    assert(path::path_bytes(paths@) =~= uri_paths(all.subrange(0, 0)));
    while i < uris.len()
        invariant
            i <= uris.len(),
            text::contents(uris@) == all,
            path::path_bytes(paths@) == uri_paths(all.subrange(0, i as int)),
        decreases uris.len() - i,
    {
        let ghost upto = all.subrange(0, i + 1);
        assert(upto.drop_last() =~= all.subrange(0, i as int));
        assert(upto.last() == uris@[i as int]@);
        let ghost before = paths@;
        match path_from_uri(uris[i].as_slice()) {
            Some(p) => {
                let ghost b = p@;
                paths.push(p);
                assert(path::path_bytes(paths@) =~= path::path_bytes(before).push(b));
            },
            None => {},
        }
        i = i + 1;
    }
    assert(all.subrange(0, all.len() as int) =~= all);
    those_that(paths, MAX_LOCATIONS, is_dir)
}

/// The file that the plain name in `text` means: the one in the first of the open
/// folders `dirs` that has one. A relative folder has none.
pub fn resolve_bare_name<F: Fn(&FilePath) -> bool>(text: &str, dirs: &Vec<FilePath>, usable: F) -> (r:
    Option<FilePath>)
    requires
        probe::askable(usable),
    ensures
        name_gave(text@, path::path_bytes(dirs@), usable, path::opt_path(r)),
{
    let name = match bare_name(text) {
        Some(name) => name,
        None => {
            return None;
        },
    };
    first_that(name_in_each(dirs, &name), usable)
}

/// Whether `t` holds the text `w` somewhere.
pub open spec fn holds(t: Seq<char>, w: Seq<char>) -> bool {
    exists|i: int| 0 <= i <= t.len() - w.len() && #[trigger] t.subrange(i, i + w.len()) == w
}

/// Whether a reply of the bus says that the name has an owner: `(true,)` from one
/// tool, `boolean true` from the other.
pub fn says_owned(reply: &str) -> (r: bool)
    ensures
        r == holds(reply@, "true"@),
{
    let t = chars_of(reply);
    let t = t.as_slice();
    let mut i: usize = 0;
    proof {
        reveal_strlit("true");
    }
    while i < t.len()
        invariant
            t@ == reply@,
            i <= t.len(),
            "true"@.len() == 4,
            forall|k: int| 0 <= k < i && k <= t.len() - 4 ==> #[trigger] t@.subrange(k, k + 4)
                != "true"@,
        decreases t.len() - i,
    {
        if t.len() - i >= 4 && spells(vstd::slice::slice_subrange(t, i, i + 4), "true") {
            assert(t@.subrange(i as int, i + 4) == "true"@);
            return true;
        }
        i = i + 1;
    }
    false
}

// ---------------------------------------------------------------------------
// The tools
// ---------------------------------------------------------------------------
/// A buffer that text is read from.
#[derive(Debug, Clone, Copy, PartialEq, Eq, Structural)]
pub enum Buffer {
    /// What is selected now.
    Primary,
    /// What was copied.
    Clipboard,
}

/// A form that the text is asked for in.
#[derive(Debug, Clone, Copy, PartialEq, Eq, Structural)]
pub enum Target {
    Text,
    UriList,
}

/// A program that reads the buffers.
#[derive(Debug, Clone, Copy, PartialEq, Eq, Structural)]
pub enum Tool {
    WlPaste,
    Xclip,
    Xsel,
}

/// The program that reads the buffers, and where it is.
#[derive(Debug)]
pub struct Clipboard {
    pub tool: Tool,
    pub bin: FilePath,
}

impl Clipboard {
    /// Picks a program: the Wayland one on Wayland, else one of the X11 ones,
    /// which also run there. `wayland` and `display` are whether the session has
    /// the one and the other; each program is where it was found, if it was.
    pub fn detect(
        wayland: bool,
        display: bool,
        wl_paste: Option<FilePath>,
        xclip: Option<FilePath>,
        xsel: Option<FilePath>,
    ) -> (r: Option<Clipboard>)
        ensures
            match r {
                Some(c) => {
                    ||| c.tool == Tool::WlPaste && wayland && wl_paste == Some(c.bin)
                    ||| {
                        &&& !(wayland && wl_paste is Some)
                        &&& display
                        &&& c.tool == Tool::Xclip && xclip == Some(c.bin) || c.tool == Tool::Xsel
                            && xclip is None && xsel == Some(c.bin)
                    }
                },
                None => !(wayland && wl_paste is Some) && !(display && (xclip is Some || xsel is Some)),
            },
    {
        if wayland {
            match wl_paste {
                Some(bin) => {
                    return Some(Clipboard { tool: Tool::WlPaste, bin });
                },
                None => {},
            }
        }
        if display {
            match xclip {
                Some(bin) => {
                    return Some(Clipboard { tool: Tool::Xclip, bin });
                },
                None => {},
            }
            match xsel {
                Some(bin) => {
                    return Some(Clipboard { tool: Tool::Xsel, bin });
                },
                None => {},
            }
        }
        None
    }
}

/// A list with one more text.
fn add_arg(args: &mut Vec<String>, arg: &str)
    ensures
        text::texts(final(args)@) == text::texts(old(args)@).push(arg@),
{
    args.push(arg.to_owned());
    assert(text::texts(args@) =~= text::texts(old(args)@).push(arg@));
}

/// The arguments that make `tool` print a buffer in a form.
pub open spec fn read_arguments(tool: Tool, buffer: Buffer, target: Target) -> Seq<Seq<char>> {
    let primary = buffer == Buffer::Primary;
    match tool {
        Tool::WlPaste => {
            let plain = seq!["--no-newline"@];
            let chosen = if primary {
                plain.push("--primary"@)
            } else {
                plain
            };
            if target == Target::UriList {
                chosen.push("--type"@).push("text/uri-list"@)
            } else {
                chosen
            }
        },
        Tool::Xclip => seq!["-o"@, "-selection"@].push(
            if primary {
                "primary"@
            } else {
                "clipboard"@
            },
        ).push("-t"@).push(
            if target == Target::UriList {
                "text/uri-list"@
            } else {
                "UTF8_STRING"@
            },
        ),
        Tool::Xsel => seq!["--output"@].push(
            if primary {
                "--primary"@
            } else {
                "--clipboard"@
            },
        ),
    }
}

/// The arguments that make `tool` print `buffer` as `target`.
pub fn read_args(tool: Tool, buffer: Buffer, target: Target) -> (r: Vec<String>)
    ensures
        text::texts(r@) == read_arguments(tool, buffer, target),
{
    let mut args: Vec<String> = Vec::new();
    let primary = match buffer {
        Buffer::Primary => true,
        Buffer::Clipboard => false,
    };
    let uris = match target {
        Target::UriList => true,
        Target::Text => false,
    };
    match tool {
        Tool::WlPaste => {
            add_arg(&mut args, "--no-newline");
            if primary {
                add_arg(&mut args, "--primary");
            }
            if uris {
                add_arg(&mut args, "--type");
                add_arg(&mut args, "text/uri-list");
            }
        },
        Tool::Xclip => {
            add_arg(&mut args, "-o");
            add_arg(&mut args, "-selection");
            add_arg(
                &mut args,
                if primary {
                    "primary"
                } else {
                    "clipboard"
                },
            );
            add_arg(&mut args, "-t");
            add_arg(
                &mut args,
                if uris {
                    "text/uri-list"
                } else {
                    "UTF8_STRING"
                },
            );
        },
        Tool::Xsel => {
            add_arg(&mut args, "--output");
            add_arg(
                &mut args,
                if primary {
                    "--primary"
                } else {
                    "--clipboard"
                },
            );
        },
    }
    assert(text::texts(args@) =~= read_arguments(tool, buffer, target));
    args
}

/// A program that talks to the bus.
#[derive(Debug, Clone, Copy, PartialEq, Eq, Structural)]
pub enum BusTool {
    Gdbus,
    DbusSend,
}

/// The program that talks to the bus, and where it is.
#[derive(Debug)]
pub struct Bus {
    pub tool: BusTool,
    pub bin: FilePath,
}

impl Bus {
    /// Picks a program, where there is a bus to talk to.
    pub fn detect(has_bus: bool, gdbus: Option<FilePath>, dbus_send: Option<FilePath>) -> (r: Option<
        Bus,
    >)
        ensures
            match r {
                Some(b) => has_bus && (b.tool == BusTool::Gdbus && gdbus == Some(b.bin) || b.tool
                    == BusTool::DbusSend && gdbus is None && dbus_send == Some(b.bin)),
                None => !has_bus || (gdbus is None && dbus_send is None),
            },
    {
        if !has_bus {
            return None;
        }
        match gdbus {
            Some(bin) => Some(Bus { tool: BusTool::Gdbus, bin }),
            None => match dbus_send {
                Some(bin) => Some(Bus { tool: BusTool::DbusSend, bin }),
                None => None,
            },
        }
    }
}

/// The name of the file manager on the bus.
pub const FILE_MANAGER1_NAME: &'static str = "org.freedesktop.FileManager1";

/// The path of the file manager on the bus.
pub const FILE_MANAGER1_PATH: &'static str = "/org/freedesktop/FileManager1";

/// The arguments that ask the bus itself whether `name` has an owner, which
/// starts no program.
pub open spec fn owner_arguments(tool: BusTool, name: Seq<char>) -> Seq<Seq<char>> {
    match tool {
        BusTool::Gdbus => seq![
            "call"@,
            "--session"@,
            "--dest"@,
            "org.freedesktop.DBus"@,
            "--object-path"@,
            "/org/freedesktop/DBus"@,
            "--method"@,
            "org.freedesktop.DBus.NameHasOwner"@,
            name,
        ],
        BusTool::DbusSend => seq![
            "--session"@,
            "--print-reply"@,
            "--dest=org.freedesktop.DBus"@,
            "/org/freedesktop/DBus"@,
            "org.freedesktop.DBus.NameHasOwner"@,
            "string:"@ + name,
        ],
    }
}

/// `a` followed by `b`.
fn pair(a: &str, b: &str) -> (r: String)
    ensures
        r@ == a@ + b@,
{
    let mut out = chars_of(a);
    push_str(&mut out, b);
    string_of(out.as_slice())
}

/// The arguments that ask the bus whether `name` has an owner.
pub fn owner_args(tool: BusTool, name: &str) -> (r: Vec<String>)
    ensures
        text::texts(r@) == owner_arguments(tool, name@),
{
    let mut args: Vec<String> = Vec::new();
    match tool {
        BusTool::Gdbus => {
            add_arg(&mut args, "call");
            add_arg(&mut args, "--session");
            add_arg(&mut args, "--dest");
            add_arg(&mut args, "org.freedesktop.DBus");
            add_arg(&mut args, "--object-path");
            add_arg(&mut args, "/org/freedesktop/DBus");
            add_arg(&mut args, "--method");
            add_arg(&mut args, "org.freedesktop.DBus.NameHasOwner");
            add_arg(&mut args, name);
        },
        BusTool::DbusSend => {
            add_arg(&mut args, "--session");
            add_arg(&mut args, "--print-reply");
            add_arg(&mut args, "--dest=org.freedesktop.DBus");
            add_arg(&mut args, "/org/freedesktop/DBus");
            add_arg(&mut args, "org.freedesktop.DBus.NameHasOwner");
            let string = pair("string:", name);
            add_arg(&mut args, string.as_str());
        },
    }
    assert(text::texts(args@) =~= owner_arguments(tool, name@));
    args
}

/// The arguments that ask the file manager which folders it has open.
pub open spec fn folder_arguments(tool: BusTool) -> Seq<Seq<char>> {
    match tool {
        BusTool::Gdbus => seq![
            "call"@,
            "--session"@,
            "--dest"@,
            FILE_MANAGER1_NAME@,
            "--object-path"@,
            FILE_MANAGER1_PATH@,
            "--method"@,
            "org.freedesktop.DBus.Properties.Get"@,
            FILE_MANAGER1_NAME@,
            "OpenLocations"@,
        ],
        BusTool::DbusSend => seq![
            "--session"@,
            "--print-reply"@,
            "--dest="@ + FILE_MANAGER1_NAME@,
            FILE_MANAGER1_PATH@,
            "org.freedesktop.DBus.Properties.Get"@,
            "string:"@ + FILE_MANAGER1_NAME@,
            "string:OpenLocations"@,
        ],
    }
}

/// The arguments that ask the file manager which folders it has open.
pub fn folder_args(tool: BusTool) -> (r: Vec<String>)
    ensures
        text::texts(r@) == folder_arguments(tool),
{
    let mut args: Vec<String> = Vec::new();
    match tool {
        BusTool::Gdbus => {
            add_arg(&mut args, "call");
            add_arg(&mut args, "--session");
            add_arg(&mut args, "--dest");
            add_arg(&mut args, FILE_MANAGER1_NAME);
            add_arg(&mut args, "--object-path");
            add_arg(&mut args, FILE_MANAGER1_PATH);
            add_arg(&mut args, "--method");
            add_arg(&mut args, "org.freedesktop.DBus.Properties.Get");
            add_arg(&mut args, FILE_MANAGER1_NAME);
            add_arg(&mut args, "OpenLocations");
        },
        BusTool::DbusSend => {
            add_arg(&mut args, "--session");
            add_arg(&mut args, "--print-reply");
            let dest = pair("--dest=", FILE_MANAGER1_NAME);
            add_arg(&mut args, dest.as_str());
            add_arg(&mut args, FILE_MANAGER1_PATH);
            add_arg(&mut args, "org.freedesktop.DBus.Properties.Get");
            let string = pair("string:", FILE_MANAGER1_NAME);
            add_arg(&mut args, string.as_str());
            add_arg(&mut args, "string:OpenLocations");
        },
    }
    assert(text::texts(args@) =~= folder_arguments(tool));
    args
}

/// What the strategy is called, by the program it reads with and whether it has a
/// bus.
pub open spec fn strategy_name(tool: Option<Tool>, bus: bool) -> Seq<char> {
    match (tool, bus) {
        (Some(Tool::WlPaste), true) =>
            "Linux desktop (PRIMARY selection via wl-paste, open folders via D-Bus)"@,
        (Some(Tool::WlPaste), false) => "Linux desktop (PRIMARY selection via wl-paste)"@,
        (Some(Tool::Xclip), true) =>
            "Linux desktop (PRIMARY selection via xclip, open folders via D-Bus)"@,
        (Some(Tool::Xclip), false) => "Linux desktop (PRIMARY selection via xclip)"@,
        (Some(Tool::Xsel), true) =>
            "Linux desktop (PRIMARY selection via xsel, open folders via D-Bus)"@,
        (Some(Tool::Xsel), false) => "Linux desktop (PRIMARY selection via xsel)"@,
        (None, _) =>
            "Linux desktop (unavailable: no display server, or no wl-paste/xclip/xsel on PATH)"@,
    }
}

/// What there is to look for a file with.
#[derive(Debug)]
pub struct Desktop {
    pub clipboard: Option<Clipboard>,
    pub bus: Option<Bus>,
}

impl Desktop {
    /// A desktop with these programs.
    pub fn new(clipboard: Option<Clipboard>, bus: Option<Bus>) -> (r: Desktop)
        ensures
            r.clipboard == clipboard,
            r.bus == bus,
    {
        Desktop { clipboard, bus }
    }

    /// The program that reads the buffers.
    pub open spec fn tool(&self) -> Option<Tool> {
        match self.clipboard {
            Some(c) => Some(c.tool),
            None => None,
        }
    }

    /// What the strategy is called.
    pub fn describe(&self) -> (r: &'static str)
        ensures
            r@ == strategy_name(self.tool(), self.bus is Some),
    {
        let tool = match &self.clipboard {
            Some(c) => Some(c.tool),
            None => None,
        };
        match (tool, self.bus.is_some()) {
            (Some(Tool::WlPaste), true) =>
                "Linux desktop (PRIMARY selection via wl-paste, open folders via D-Bus)",
            (Some(Tool::WlPaste), false) => "Linux desktop (PRIMARY selection via wl-paste)",
            (Some(Tool::Xclip), true) =>
                "Linux desktop (PRIMARY selection via xclip, open folders via D-Bus)",
            (Some(Tool::Xclip), false) => "Linux desktop (PRIMARY selection via xclip)",
            (Some(Tool::Xsel), true) =>
                "Linux desktop (PRIMARY selection via xsel, open folders via D-Bus)",
            (Some(Tool::Xsel), false) => "Linux desktop (PRIMARY selection via xsel)",
            (None, _) =>
                "Linux desktop (unavailable: no display server, or no wl-paste/xclip/xsel on PATH)",
        }
    }
}

// ---------------------------------------------------------------------------
// The order of asking
// ---------------------------------------------------------------------------
/// What to do next to find a file.
#[derive(Debug, Clone, Copy, PartialEq, Eq, Structural)]
pub enum Ask {
    /// Read this buffer in this form.
    Read(Buffer, Target),
    /// Ask the bus whether a file manager is running. The bus answers without
    /// starting one.
    Owner,
    /// Ask the file manager which folders it has open.
    Folders,
    /// Nothing: the search is over.
    Nothing,
}

/// How far the search for a file has come.
#[derive(Debug)]
pub struct Lookup {
    tool: Tool,
    bus: bool,
    next: Ask,
    primary: Option<String>,
    found: Option<Selection>,
}

/// What is read after `buffer` was read as `target`: `text` is whether anything
/// came back. A buffer that gave nothing gives nothing in another form either.
pub open spec fn next_read(tool: Tool, buffer: Buffer, target: Target, text: bool) -> Option<
    (Buffer, Target),
> {
    if text && target == Target::Text && tool != Tool::Xsel {
        Some((buffer, Target::UriList))
    } else if buffer == Buffer::Primary {
        Some((Buffer::Clipboard, Target::Text))
    } else {
        None
    }
}

/// What the selection is known to hold, after `buffer` was read as `target` and
/// `text` came back.
pub open spec fn selected_after(
    before: Option<Seq<char>>,
    buffer: Buffer,
    target: Target,
    text: Option<Seq<char>>,
) -> Option<Seq<char>> {
    if text is Some && buffer == Buffer::Primary && target == Target::Text {
        text
    } else {
        before
    }
}

/// What is left to try when no buffer held the path of a file: where there is a
/// bus, what the selection held may be a plain name.
pub open spec fn last_resort(bus: bool, selected: Option<Seq<char>>) -> Ask {
    match selected {
        Some(t) if bus && plain_name(t) is Some => Ask::Owner,
        _ => Ask::Nothing,
    }
}

/// A file that was found, as its path and where that came from.
pub open spec fn finding(found: Option<Selection>) -> Option<(PathView, Origin)> {
    match found {
        Some(selection) => Some((selection.path@, selection.origin)),
        None => None,
    }
}

/// A path as something found at `origin`.
pub open spec fn found_at(path: Option<PathView>, origin: Origin) -> Option<(PathView, Origin)> {
    match path {
        Some(b) => Some((b, origin)),
        None => None,
    }
}

/// Whether `path` can be what came of reading `text`: the first path in it that
/// `usable` said yes of.
pub open spec fn read_gave<F: Fn(&FilePath) -> bool>(
    text: Option<Seq<char>>,
    usable: F,
    path: Option<PathView>,
) -> bool {
    match text {
        Some(t) => probe::first_found(line_paths(first_lines(t)), usable, path),
        None => path is None,
    }
}

/// Whether `dirs` can be the open folders in a reply.
pub open spec fn reply_gave<F: Fn(&FilePath) -> bool>(
    reply: Option<Seq<char>>,
    is_dir: F,
    dirs: Seq<PathView>,
) -> bool {
    match reply {
        Some(t) => probe::some_found(
            uri_paths(strings_from(t, 0)),
            MAX_LOCATIONS as nat,
            is_dir,
            dirs,
        ),
        None => dirs == Seq::<PathView>::empty(),
    }
}

/// Whether `path` can be what the plain name in `text` means, in the first of `dirs`
/// that has a file of that name.
pub open spec fn name_gave<F: Fn(&FilePath) -> bool>(
    text: Seq<char>,
    dirs: Seq<PathView>,
    usable: F,
    path: Option<PathView>,
) -> bool {
    match plain_name(text) {
        Some(name) => probe::first_found(probe::in_each(dirs, name), usable, path),
        None => path is None,
    }
}

impl Lookup {
    /// What is done next.
    pub closed spec fn pending(&self) -> Ask {
        self.next
    }

    /// What the selection held as text.
    pub closed spec fn selected(&self) -> Option<Seq<char>> {
        text::opt_text(self.primary)
    }

    /// The program that reads.
    pub closed spec fn with(&self) -> Tool {
        self.tool
    }

    /// Whether there is a bus to ask.
    pub closed spec fn has_bus(&self) -> bool {
        self.bus
    }

    /// The file that was found, and where its path came from.
    pub closed spec fn result(&self) -> Option<(PathView, Origin)> {
        finding(self.found)
    }

    /// The bus is only asked about a plain name, and nothing is asked once a file
    /// was found.
    pub open spec fn wf(&self) -> bool {
        &&& self.pending() == Ask::Owner || self.pending() == Ask::Folders ==> {
            &&& self.selected() is Some
            &&& plain_name(self.selected()->0) is Some
        }
        &&& self.result() is Some ==> self.pending() == Ask::Nothing
    }

    /// A search with `tool`: the selection comes first, as text.
    pub fn new(tool: Tool, bus: bool) -> (r: Lookup)
        ensures
            r.wf(),
            r.with() == tool,
            r.has_bus() == bus,
            r.pending() == Ask::Read(Buffer::Primary, Target::Text),
            r.selected() is None,
            r.result() is None,
    {
        Lookup {
            tool,
            bus,
            next: Ask::Read(Buffer::Primary, Target::Text),
            primary: None,
            found: None,
        }
    }

    /// What to do next.
    pub fn ask(&self) -> (r: Ask)
        ensures
            r == self.pending(),
    {
        self.next
    }

    /// The file that was found.
    pub fn found(self) -> (r: Option<Selection>)
        ensures
            finding(r) == self.result(),
    {
        self.found
    }

    /// Goes on with what a buffer held: `text` is what came back, if anything did.
    /// The first path in it that `usable` says yes of ends the search.
    pub fn read<F: Fn(&FilePath) -> bool>(&mut self, text: Option<String>, usable: F)
        requires
            old(self).wf(),
            old(self).pending() is Read,
            probe::askable(usable),
        ensures
            final(self).wf(),
            final(self).with() == old(self).with(),
            final(self).has_bus() == old(self).has_bus(),
            exists|path: Option<PathView>|
                {
                    let buffer = old(self).pending()->Read_0;
                    let target = old(self).pending()->Read_1;
                    let selected = selected_after(
                        old(self).selected(),
                        buffer,
                        target,
                        text::opt_text(text),
                    );
                    &&& #[trigger] read_gave(text::opt_text(text), usable, path)
                    &&& final(self).result() == found_at(path, Origin::Clipboard)
                    &&& path is Some ==> final(self).pending() == Ask::Nothing
                    &&& path is Some ==> final(self).selected() == old(self).selected()
                    &&& path is None ==> final(self).selected() == selected
                    &&& path is None ==> final(self).pending() == match next_read(
                        old(self).with(),
                        buffer,
                        target,
                        text is Some,
                    ) {
                        Some(read) => Ask::Read(read.0, read.1),
                        None => last_resort(old(self).has_bus(), selected),
                    }
                },
    {
        let (buffer, target) = match self.next {
            Ask::Read(buffer, target) => (buffer, target),
            _ => {
                return;
            },
        };
        let path = match &text {
            Some(t) => first_usable(t.as_str(), usable),
            None => None,
        };
        assert(read_gave(text::opt_text(text), usable, path::opt_path(path)));
        match path {
            Some(path) => {
                self.found = Some(Selection::new(path, Origin::Clipboard));
                self.next = Ask::Nothing;
                return;
            },
            None => {},
        }
        let more = match (target, self.tool) {
            (Target::Text, Tool::Xsel) => false,
            (Target::Text, _) => text.is_some(),
            _ => false,
        };
        match (buffer, target) {
            (Buffer::Primary, Target::Text) => {
                if text.is_some() {
                    self.primary = text;
                }
            },
            _ => {},
        }
        self.next = if more {
            Ask::Read(buffer, Target::UriList)
        } else {
            match buffer {
                Buffer::Primary => Ask::Read(Buffer::Clipboard, Target::Text),
                Buffer::Clipboard => self.after_buffers(),
            }
        };
    }

    /// What is left to try after the buffers.
    fn after_buffers(&self) -> (r: Ask)
        ensures
            r == last_resort(self.has_bus(), self.selected()),
    {
        match &self.primary {
            Some(t) => {
                if self.bus && bare_name(t.as_str()).is_some() {
                    Ask::Owner
                } else {
                    Ask::Nothing
                }
            },
            None => Ask::Nothing,
        }
    }

    /// Goes on with what the bus said of the file manager: it is not asked anything
    /// where it is not running.
    pub fn owner(&mut self, reply: Option<String>)
        requires
            old(self).wf(),
            old(self).pending() == Ask::Owner,
        ensures
            final(self).wf(),
            final(self).with() == old(self).with(),
            final(self).has_bus() == old(self).has_bus(),
            final(self).selected() == old(self).selected(),
            final(self).result() is None,
            final(self).pending() == (if reply is Some && holds(reply->0@, "true"@) {
                Ask::Folders
            } else {
                Ask::Nothing
            }),
    {
        let running = match &reply {
            Some(t) => says_owned(t.as_str()),
            None => false,
        };
        self.next = if running {
            Ask::Folders
        } else {
            Ask::Nothing
        };
    }

    /// Ends the search with the folders that the file manager has open: the plain
    /// name is looked for in them.
    pub fn folders<D: Fn(&FilePath) -> bool, F: Fn(&FilePath) -> bool>(
        &mut self,
        reply: Option<String>,
        is_dir: D,
        usable: F,
    )
        requires
            old(self).wf(),
            old(self).pending() == Ask::Folders,
            probe::askable(is_dir),
            probe::askable(usable),
        ensures
            final(self).wf(),
            final(self).with() == old(self).with(),
            final(self).has_bus() == old(self).has_bus(),
            final(self).selected() == old(self).selected(),
            final(self).pending() == Ask::Nothing,
            exists|dirs: Seq<PathView>, path: Option<PathView>|
                {
                    &&& #[trigger] reply_gave(text::opt_text(reply), is_dir, dirs)
                    &&& #[trigger] name_gave(old(self).selected()->0, dirs, usable, path)
                    &&& final(self).result() == found_at(path, Origin::FileManager)
                },
    {
        let dirs = match &reply {
            Some(t) => open_folders(t.as_str(), is_dir),
            None => Vec::new(),
        };
        let ghost at = path::path_bytes(dirs@);
        assert(reply is None ==> at =~= Seq::<PathView>::empty());
        assert(reply_gave(text::opt_text(reply), is_dir, at));
        let path = match &self.primary {
            Some(t) => resolve_bare_name(t.as_str(), &dirs, usable),
            None => None,
        };
        assert(name_gave(old(self).selected()->0, at, usable, path::opt_path(path)));
        self.next = Ask::Nothing;
        self.found = match path {
            Some(path) => Some(Selection::new(path, Origin::FileManager)),
            None => None,
        };
    }
}

// ---------------------------------------------------------------------------
// Laws
// ---------------------------------------------------------------------------
/// How many questions a search may still ask when `ask` is the next.
pub open spec fn questions_left(ask: Ask) -> nat {
    match ask {
        Ask::Read(Buffer::Primary, Target::Text) => 6,
        Ask::Read(Buffer::Primary, Target::UriList) => 5,
        Ask::Read(Buffer::Clipboard, Target::Text) => 4,
        Ask::Read(Buffer::Clipboard, Target::UriList) => 3,
        Ask::Owner => 2,
        Ask::Folders => 1,
        Ask::Nothing => 0,
    }
}

/// A search ends, whatever comes back: each question leaves fewer.
pub proof fn law_a_search_comes_to_an_end(
    tool: Tool,
    bus: bool,
    selected: Option<Seq<char>>,
    buffer: Buffer,
    target: Target,
    text: bool,
)
    ensures
        match next_read(tool, buffer, target, text) {
            Some(read) => questions_left(Ask::Read(read.0, read.1)) < questions_left(
                Ask::Read(buffer, target),
            ),
            None => questions_left(last_resort(bus, selected)) < questions_left(
                Ask::Read(buffer, target),
            ),
        },
        questions_left(Ask::Nothing) < questions_left(Ask::Folders) < questions_left(Ask::Owner),
{
}

/// Whatever a clipboard holds, only absolute paths are taken from it, and none
/// with a NUL from a URI.
pub proof fn law_only_absolute_paths_are_taken(line: Seq<char>)
    ensures
        line_path(line) is Some ==> path::absolute(line_path(line)->0),
        uri_path(line) is Some ==> path::absolute(uri_path(line)->0)
            && !uri_path(line)->0.bytes.contains(0u8),
{
    let t = text::trimmed(line);
    if line_path(line) is Some && scheme(t) is None {
        vstd::utf8::encode_utf8_first_scalar(t);
        let b = utf8::encode_utf8(t);
        assert(t[0] as u32 == 0x2f);
        assert(vstd::utf8::leading_byte_width_1(0x2f) == 0x2f) by (bit_vector);
        assert(b[0] == vstd::utf8::encode_scalar(t[0] as u32)[0]);
    }
}

/// A text with no `%` in it is decoded as it is.
pub proof fn law_plain_text_decodes_to_itself(b: Seq<u8>)
    requires
        !b.contains(0x25u8),
    ensures
        decoded(b) == b,
    decreases b.len(),
{
    if b.len() > 0 {
        assert(b[0] != 0x25u8) by {
            assert(b.contains(b[0]));
        }
        let rest = b.skip(1);
        assert forall|i: int| 0 <= i < rest.len() implies rest[i] != 0x25u8 by {
            assert(b.contains(b[i + 1]));
        }
        law_plain_text_decodes_to_itself(rest);
        assert(seq![b[0]] + rest =~= b);
    } else {
        assert(decoded(b) =~= b);
    }
}

/// A plain name stays in the folder that it is looked for in: put behind it, it is
/// the last component, and the folder is what comes before.
pub proof fn law_a_plain_name_stays_in_its_folder(text: Seq<char>, dir: PathView)
    requires
        dir.platform == Platform::Unix,
        plain_name(text) is Some,
    ensures
        path::names(path::joined(dir, plain_name(text)->0)) == path::names(dir).push(
            plain_name(text)->0,
        ),
        path::absolute(path::joined(dir, plain_name(text)->0)) == path::absolute(dir),
        plain_name(text)->0 != seq![path::DOT, path::DOT],
{
    let t = text::trimmed(text::lines(text)[0]);
    let name = plain_name(text)->0;
    text::lemma_plain_bytes(t, path::SLASH);
    lemma_dots();
    vstd::utf8::encode_utf8_decode_utf8(t);
    vstd::utf8::encode_utf8_decode_utf8("."@);
    vstd::utf8::encode_utf8_decode_utf8(".."@);
    vstd::utf8::encode_utf8_first_scalar(t);
    path::law_a_joined_name_stays_inside(dir, name);
}

proof fn lemma_dots()
    ensures
        utf8::encode_utf8("."@) == seq![path::DOT],
        utf8::encode_utf8(".."@) == seq![path::DOT, path::DOT],
{
    reveal_strlit(".");
    reveal_strlit("..");
    reveal_with_fuel(utf8::encode_utf8, 3);
    assert(vstd::utf8::leading_byte_width_1(0x2e) == 0x2e) by (bit_vector);
    assert("."@.drop_first() =~= Seq::<char>::empty());
    assert(".."@.drop_first() =~= "."@);
    assert(utf8::encode_utf8("."@) =~= seq![path::DOT]);
    assert(utf8::encode_utf8(".."@) =~= seq![path::DOT, path::DOT]);
}

} // verus!
