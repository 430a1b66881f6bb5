//! Changing one setting in the text of the settings file.
//!
//! The file is the user's: its comments, its order and its line endings stay as
//! they are. Only the value of one key is replaced, or one line is added.
use vstd::prelude::*;

use crate::text::{
    self, chars_of, code_of, find_char, is_white_space, leading_space, line_body, push_chars,
    push_str, same_chars, string_of,
};

verus! {

// ---------------------------------------------------------------------------
// Strings in the file
// ---------------------------------------------------------------------------
/// The hexadecimal digit for `n`.
pub open spec fn hex_char(n: int) -> char {
    if n < 10 {
        ('0' as u8 + n) as char
    } else {
        ('A' as u8 + (n - 10)) as char
    }
}

/// Whether `c` may not stand in a string as it is.
pub open spec fn control(c: char) -> bool {
    c < ' ' || c == '\u{7f}'
}

/// How `c` is written inside a quoted string.
pub open spec fn escaped(c: char) -> Seq<char> {
    if c == '"' {
        seq!['\\', '"']
    } else if c == '\\' {
        seq!['\\', '\\']
    } else if c == '\n' {
        seq!['\\', 'n']
    } else if c == '\r' {
        seq!['\\', 'r']
    } else if c == '\t' {
        seq!['\\', 't']
    } else if control(c) {
        seq!['\\', 'u', '0', '0', hex_char(c as int / 16), hex_char(c as int % 16)]
    } else {
        seq![c]
    }
}

/// How `s` is written inside a quoted string.
pub open spec fn escaped_all(s: Seq<char>) -> Seq<char>
    decreases s.len(),
{
    if s.len() == 0 {
        Seq::empty()
    } else {
        escaped(s[0]) + escaped_all(s.drop_first())
    }
}

/// `s` as a quoted string.
pub open spec fn quoted(s: Seq<char>) -> Seq<char> {
    seq!['"'] + escaped_all(s) + seq!['"']
}

/// The value of a hexadecimal digit.
pub open spec fn hex_value(c: char) -> Option<int> {
    if '0' <= c <= '9' {
        Some(c as int - '0' as int)
    } else if 'A' <= c <= 'F' {
        Some(c as int - 'A' as int + 10)
    } else if 'a' <= c <= 'f' {
        Some(c as int - 'a' as int + 10)
    } else {
        None
    }
}

/// The character that the escape `\u` with the four digits `a` to `d` stands
/// for.
pub open spec fn escaped_char(a: char, b: char, c: char, d: char) -> Option<char> {
    match (hex_value(a), hex_value(b), hex_value(c), hex_value(d)) {
        (Some(w), Some(x), Some(y), Some(z)) => {
            let n = w * 4096 + x * 256 + y * 16 + z;
            if 0xd800 <= n < 0xe000 {
                None
            } else {
                Some(n as char)
            }
        },
        _ => None,
    }
}

/// What the inside of a quoted string stands for, as the file format reads it,
/// as far as the escapes `\"`, `\\`, `\n`, `\r`, `\t` and `\u` go.
pub open spec fn unescaped(s: Seq<char>) -> Option<Seq<char>>
    decreases s.len(),
{
    if s.len() == 0 {
        Some(Seq::empty())
    } else if s[0] != '\\' {
        if s[0] == '"' || (control(s[0]) && s[0] != '\t') {
            None
        } else {
            match unescaped(s.skip(1)) {
                Some(rest) => Some(seq![s[0]] + rest),
                None => None,
            }
        }
    } else if s.len() < 2 {
        None
    } else if s[1] == 'u' {
        if s.len() < 6 {
            None
        } else {
            match (escaped_char(s[2], s[3], s[4], s[5]), unescaped(s.skip(6))) {
                (Some(c), Some(rest)) => Some(seq![c] + rest),
                _ => None,
            }
        }
    } else {
        let c = if s[1] == '"' {
            Some('"')
        } else if s[1] == '\\' {
            Some('\\')
        } else if s[1] == 'n' {
            Some('\n')
        } else if s[1] == 'r' {
            Some('\r')
        } else if s[1] == 't' {
            Some('\t')
        } else {
            None
        };
        match (c, unescaped(s.skip(2))) {
            (Some(c), Some(rest)) => Some(seq![c] + rest),
            _ => None,
        }
    }
}

/// What the quoted string `s` stands for.
pub open spec fn unquoted(s: Seq<char>) -> Option<Seq<char>> {
    if s.len() >= 2 && s[0] == '"' && s.last() == '"' {
        unescaped(s.subrange(1, s.len() - 1))
    } else {
        None
    }
}

fn to_hex_char(n: u8) -> (r: char)
    requires
        n < 16,
    ensures
        r == hex_char(n as int),
{
    if n < 10 {
        (48u8 + n) as char
    } else {
        (65u8 + (n - 10)) as char
    }
}

/// Quotes a string for the file, so that the file reads it back as it was.
pub fn toml_string(raw: &str) -> (r: String)
    ensures
        r@ == quoted(raw@),
{
    let cs = chars_of(raw);
    let mut out: Vec<char> = Vec::new();
    out.push('"');
    let mut i: usize = 0;
    assert(out@ =~= seq!['"'] + escaped_all(cs@.subrange(0, 0)));
    while i < cs.len()
        invariant
            i <= cs.len(),
            out@ == seq!['"'] + escaped_all(cs@.subrange(0, i as int)),
        decreases cs.len() - i,
    {
        let c = cs[i];
        let ghost before = out@;
        if c == '"' {
            out.push('\\');
            out.push('"');
        } else if c == '\\' {
            out.push('\\');
            out.push('\\');
        } else if c == '\n' {
            out.push('\\');
            out.push('n');
        } else if c == '\r' {
            out.push('\\');
            out.push('r');
        } else if c == '\t' {
            out.push('\\');
            out.push('t');
        } else if c < ' ' || c == '\u{7f}' {
            let code: u32 = code_of(c);
            let n: u8 = code as u8;
            out.push('\\');
            out.push('u');
            out.push('0');
            out.push('0');
            out.push(to_hex_char(n / 16));
            out.push(to_hex_char(n % 16));
        } else {
            out.push(c);
        }
        assert(out@ =~= before + escaped(c));
        proof {
            lemma_escaped_push(cs@.subrange(0, i as int), c);
            assert(cs@.subrange(0, i + 1) =~= cs@.subrange(0, i as int).push(c));
            assert(before + escaped(c) =~= seq!['"'] + (escaped_all(cs@.subrange(0, i as int))
                + escaped(c)));
        }
        i = i + 1;
    }
    assert(cs@.subrange(0, cs@.len() as int) =~= cs@);
    out.push('"');
    assert(out@ =~= quoted(raw@));
    string_of(out.as_slice())
}

/// Quoting goes character by character, so it also goes from the end.
proof fn lemma_escaped_push(s: Seq<char>, c: char)
    ensures
        escaped_all(s.push(c)) == escaped_all(s) + escaped(c),
    decreases s.len(),
{
    if s.len() == 0 {
        assert(s.push(c).drop_first() =~= Seq::<char>::empty());
        assert(escaped_all(Seq::<char>::empty()) =~= Seq::<char>::empty());
        assert(escaped_all(s.push(c)) =~= escaped_all(s) + escaped(c));
    } else {
        lemma_escaped_push(s.drop_first(), c);
        assert(s.push(c).drop_first() =~= s.drop_first().push(c));
        assert(escaped_all(s.push(c)) =~= escaped_all(s) + escaped(c));
    }
}

// ---------------------------------------------------------------------------
// Lines
// ---------------------------------------------------------------------------
/// How much white space `s` begins with.
pub open spec fn space_len(s: Seq<char>) -> int {
    s.len() - text::trim_start(s).len()
}

/// Where a basic string that is open at `i` ends: behind the first quote that no
/// backslash stands before.
pub open spec fn basic_end(v: Seq<char>, i: int) -> int
    decreases v.len() + 1 - i,
{
    if i < 0 || i >= v.len() {
        v.len() as int
    } else if v[i] == '\\' {
        basic_end(v, i + 2)
    } else if v[i] == '"' {
        i + 1
    } else {
        basic_end(v, i + 1)
    }
}

/// Where a value that is no string ends: at white space or a comment.
pub open spec fn bare_end(v: Seq<char>, i: int) -> int
    decreases v.len() - i,
{
    if i < 0 || i >= v.len() || text::white_space(v[i]) || v[i] == '#' {
        i
    } else {
        bare_end(v, i + 1)
    }
}

/// Whether three quotes `q` stand at `i`.
pub open spec fn triple(v: Seq<char>, q: char, i: int) -> bool {
    0 <= i && i + 3 <= v.len() && v[i] == q && v[i + 1] == q && v[i + 2] == q
}

/// Where the three quotes stand that close a string which three quotes `q` opened
/// and which goes on at `i`; the length where there are none. A backslash takes the
/// next character with it, but not between `'`.
pub open spec fn triple_close(v: Seq<char>, q: char, i: int) -> int
    decreases v.len() + 1 - i,
{
    if i < 0 || i >= v.len() {
        v.len() as int
    } else if q == '"' && v[i] == '\\' {
        triple_close(v, q, i + 2)
    } else if triple(v, q, i) {
        i
    } else {
        triple_close(v, q, i + 1)
    }
}

/// Where a string ends that three quotes `q` opened: behind the three that close it.
/// One or two more right there are the string's own last characters, and the three
/// that close it stand behind them.
pub open spec fn triple_end(v: Seq<char>, q: char) -> int {
    let n = triple_close(v, q, 3);
    if n >= v.len() {
        v.len() as int
    } else if n + 3 < v.len() && v[n + 3] == q {
        if n + 4 < v.len() && v[n + 4] == q {
            n + 5
        } else {
            n + 4
        }
    } else {
        n + 3
    }
}

/// How many characters of `v` the value takes that it begins with. A string that is
/// not closed goes to the end.
pub open spec fn value_extent(v: Seq<char>) -> int {
    if triple(v, '"', 0) {
        triple_end(v, '"')
    } else if triple(v, '\'', 0) {
        triple_end(v, '\'')
    } else if v.len() > 0 && v[0] == '"' {
        basic_end(v, 1)
    } else if v.len() > 0 && v[0] == '\'' {
        let n = text::first_at(v, '\'', 1);
        if n < v.len() {
            n + 1
        } else {
            v.len() as int
        }
    } else {
        bare_end(v, 0)
    }
}

/// Where the value stands in a line that gives `key` a value.
pub open spec fn value_span(body: Seq<char>, key: Seq<char>) -> Option<(int, int)> {
    let indent = space_len(body);
    let at_key = body.skip(indent);
    if !text::starts(at_key, key) {
        None
    } else {
        let after_key = at_key.skip(key.len() as int);
        let gap = space_len(after_key);
        if !(gap < after_key.len() && after_key[gap] == '=') {
            None
        } else {
            let after_eq = after_key.skip(gap + 1);
            let space = space_len(after_eq);
            let start = indent + key.len() + gap + 1 + space;
            Some((start, start + value_extent(after_eq.skip(space))))
        }
    }
}

/// Whether a line opens a table.
pub open spec fn is_header(body: Seq<char>) -> bool {
    text::trim_start(body).len() > 0 && text::trim_start(body)[0] == '['
}

/// Where a setting goes.
pub enum Place {
    /// Its value stands between these two places.
    Value(int, int),
    /// It has none: a line for it goes here, at the end of the top level.
    End(int),
}

impl Place {
    /// The same place in a text with `n` characters more in front.
    pub open spec fn behind(self, n: int) -> Place {
        match self {
            Place::Value(a, b) => Place::Value(a + n, b + n),
            Place::End(a) => Place::End(a + n),
        }
    }
}

/// Where the top-level setting `key` goes in `t`: a key behind the first table
/// header belongs to that table.
pub open spec fn locate(t: Seq<char>, key: Seq<char>) -> Place
    decreases t.len(),
{
    let n = text::line_len(t);
    if t.len() == 0 || is_header(text::first_body(t)) || !(0 < n <= t.len()) {
        Place::End(0)
    } else {
        match value_span(text::first_body(t), key) {
            Some((a, b)) => Place::Value(a, b),
            None => locate(t.skip(n), key).behind(n),
        }
    }
}

/// The line ending that `t` uses.
pub open spec fn line_ending(t: Seq<char>) -> Seq<char> {
    if has_crlf(t) {
        seq!['\r', '\n']
    } else {
        seq!['\n']
    }
}

/// Whether a line of `t` ends in `\r\n`.
pub open spec fn has_crlf(t: Seq<char>) -> bool {
    exists|i: int| 0 <= i && i + 1 < t.len() && #[trigger] t[i] == '\r' && t[i + 1] == '\n'
}

/// The line that gives `key` the value `value`.
pub open spec fn setting_line(key: Seq<char>, value: Seq<char>, eol: Seq<char>) -> Seq<char> {
    key + seq![' ', '=', ' '] + value + eol
}

/// `t` with the value written at `place`.
pub open spec fn spliced(
    t: Seq<char>,
    place: Place,
    key: Seq<char>,
    value: Seq<char>,
    eol: Seq<char>,
) -> Seq<char> {
    match place {
        Place::Value(a, b) => t.subrange(0, a) + value + t.skip(b),
        Place::End(a) => {
            let open = a > 0 && t[a - 1] != '\n';
            t.subrange(0, a) + (if open {
                eol
            } else {
                Seq::empty()
            }) + setting_line(key, value, eol) + t.skip(a)
        },
    }
}

/// The text `t` with the top-level setting `key` set to the string `value`:
/// where it has a value only that value is replaced, and where it has none a
/// line is added. Every other character stays.
pub open spec fn updated(t: Seq<char>, key: Seq<char>, value: Seq<char>) -> Seq<char> {
    spliced(t, locate(t, key), key, quoted(value), line_ending(t))
}

/// What stands for the value of the top-level setting `key`.
pub open spec fn setting_of(t: Seq<char>, key: Seq<char>) -> Option<Seq<char>> {
    match locate(t, key) {
        Place::Value(a, b) => Some(t.subrange(a, b)),
        Place::End(_) => None,
    }
}

/// Whether three quotes `q` stand at `i`.
fn is_triple(v: &[char], q: char, i: usize) -> (r: bool)
    requires
        i <= v.len(),
    ensures
        r == triple(v@, q, i as int),
{
    v.len() - i >= 3 && v[i] == q && v[i + 1] == q && v[i + 2] == q
}

/// Where the string ends that three quotes `q` open `v` with.
fn triple_len(v: &[char], q: char) -> (r: usize)
    requires
        triple(v@, q, 0),
    ensures
        r == triple_end(v@, q),
        r <= v.len(),
{
    let n: usize = v.len();
    let mut i: usize = 3;
    while i < n && !((q != '"' || v[i] != '\\') && is_triple(v, q, i))
        invariant
            n == v.len(),
            3 <= i <= n,
            triple_close(v@, q, 3) == triple_close(v@, q, i as int),
        decreases n - i,
    {
        if q == '"' && v[i] == '\\' {
            assert(triple_close(v@, q, n as int) == n && triple_close(v@, q, n + 1) == n);
            i = if n - i >= 2 {
                i + 2
            } else {
                n
            };
        } else {
            i = i + 1;
        }
    }
    if i >= n {
        n
    } else if n - i > 3 && v[i + 3] == q {
        if n - i > 4 && v[i + 4] == q {
            i + 5
        } else {
            i + 4
        }
    } else {
        i + 3
    }
}

/// How many characters of `v` the value takes that it begins with, so that a
/// comment behind it is not taken for part of it.
pub fn value_len(v: &[char]) -> (r: usize)
    ensures
        r == value_extent(v@),
        r <= v.len(),
{
    let n: usize = v.len();
    if is_triple(v, '"', 0) {
        triple_len(v, '"')
    } else if is_triple(v, '\'', 0) {
        triple_len(v, '\'')
    } else if n > 0 && v[0] == '"' {
        let mut i: usize = 1;
        while i < n && v[i] != '"'
            invariant
                n == v.len(),
                1 <= i <= n,
                basic_end(v@, 1) == basic_end(v@, i as int),
            decreases n - i,
        {
            if v[i] == '\\' {
                assert(basic_end(v@, n as int) == n && basic_end(v@, n + 1) == n);
                i = if n - i >= 2 {
                    i + 2
                } else {
                    n
                };
            } else {
                i = i + 1;
            }
        }
        if i < n {
            i + 1
        } else {
            n
        }
    } else if n > 0 && v[0] == '\'' {
        let end = find_char(v, '\'', 1);
        if end < n {
            end + 1
        } else {
            n
        }
    } else {
        let mut i: usize = 0;
        while i < n && !is_white_space(v[i]) && v[i] != '#'
            invariant
                n == v.len(),
                i <= n,
                bare_end(v@, 0) == bare_end(v@, i as int),
            decreases n - i,
        {
            i = i + 1;
        }
        i
    }
}

/// Where the value stands in a line that gives `key` a value; `None` for any
/// other line.
pub fn assignment(body: &[char], key: &[char]) -> (r: Option<(usize, usize)>)
    ensures
        match (r, value_span(body@, key@)) {
            (Some(found), Some(span)) => {
                &&& found.0 == span.0
                &&& found.1 == span.1
                &&& found.0 <= found.1 <= body.len()
            },
            (None, None) => true,
            _ => false,
        },
{
    let indent = leading_space(body);
    let at_key = vstd::slice::slice_subrange(body, indent, body.len());
    assert(at_key@ == body@.skip(space_len(body@)));
    if at_key.len() < key.len() || !same_chars(
        vstd::slice::slice_subrange(at_key, 0, key.len()),
        key,
    ) {
        return None;
    }
    let after_key = vstd::slice::slice_subrange(at_key, key.len(), at_key.len());
    let gap = leading_space(after_key);
    if gap >= after_key.len() || after_key[gap] != '=' {
        return None;
    }
    let after_eq = vstd::slice::slice_subrange(after_key, gap + 1, after_key.len());
    let space = leading_space(after_eq);
    let value = vstd::slice::slice_subrange(after_eq, space, after_eq.len());
    let start: usize = indent + key.len() + gap + 1 + space;
    assert(value.len() == body.len() - start);
    Some((start, start + value_len(value)))
}

/// Whether `t` has a line that ends in `\r\n`.
fn uses_crlf(t: &[char]) -> (r: bool)
    ensures
        r == has_crlf(t@),
{
    let mut i: usize = 0;
    while i < t.len()
        invariant
            i <= t.len(),
            forall|k: int| 0 <= k < i && k + 1 < t.len() && #[trigger] t@[k] == '\r' ==> t@[k + 1]
                != '\n',
        decreases t.len() - i,
    {
        if t.len() - i >= 2 && t[i] == '\r' && t[i + 1] == '\n' {
            assert(t@[i as int] == '\r' && t@[i + 1] == '\n');
            return true;
        }
        i = i + 1;
    }
    false
}

/// Appends `key = value` as a line of its own, and ends the line before it where
/// that was left open.
fn push_assignment(out: &mut Vec<char>, key: &[char], value: &str, crlf: bool)
    ensures
        final(out)@ == old(out)@ + (if old(out)@.len() > 0 && old(out)@.last() != '\n' {
            if crlf {
                seq!['\r', '\n']
            } else {
                seq!['\n']
            }
        } else {
            Seq::empty()
        }) + setting_line(
            key@,
            value@,
            if crlf {
                seq!['\r', '\n']
            } else {
                seq!['\n']
            },
        ),
{
    let n: usize = out.len();
    if n > 0 && out[n - 1] != '\n' {
        if crlf {
            out.push('\r');
        }
        out.push('\n');
    }
    push_chars(out, key);
    out.push(' ');
    out.push('=');
    out.push(' ');
    push_str(out, value);
    if crlf {
        out.push('\r');
    }
    out.push('\n');
    assert(out@ =~= old(out)@ + (if old(out)@.len() > 0 && old(out)@.last() != '\n' {
        if crlf {
            seq!['\r', '\n']
        } else {
            seq!['\n']
        }
    } else {
        Seq::empty()
    }) + setting_line(
        key@,
        value@,
        if crlf {
            seq!['\r', '\n']
        } else {
            seq!['\n']
        },
    ));
}

/// Sets the top-level `key` to the string `value`, and keeps every other
/// character of `text` as it is.
#[verifier::rlimit(30)]
pub fn with_setting(text: &str, key: &str, value: &str) -> (r: String)
    ensures
        r@ == updated(text@, key@, value@),
{
    let t = chars_of(text);
    let t = t.as_slice();
    let k = chars_of(key);
    let k = k.as_slice();
    let new = toml_string(value);
    let mut from: usize = 0;
    assert(t@.skip(0) =~= t@);
    assert(locate(t@, k@).behind(0) == locate(t@, k@));
    loop
        invariant
            t@ == text@,
            k@ == key@,
            new@ == quoted(value@),
            from <= t.len(),
            locate(t@, k@) == locate(t@.skip(from as int), k@).behind(from as int),
        decreases t.len() - from,
    {
        let rest = vstd::slice::slice_subrange(t, from, t.len());
        assert(rest@ == t@.skip(from as int));
        let (line, body) = line_body(rest);
        let content = vstd::slice::slice_subrange(rest, 0, body);
        assert(content@ == text::first_body(rest@));
        let space = leading_space(content);
        if rest.len() == 0 || (space < content.len() && content[space] == '[') {
            let mut out: Vec<char> = Vec::new();
            push_chars(&mut out, vstd::slice::slice_subrange(t, 0, from));
            let crlf = uses_crlf(t);
            push_assignment(&mut out, k, new.as_str(), crlf);
            push_chars(&mut out, rest);
            assert(out@ =~= updated(text@, key@, value@));
            return string_of(out.as_slice());
        }
        match assignment(content, k) {
            Some((a, b)) => {
                let mut out: Vec<char> = Vec::new();
                push_chars(&mut out, vstd::slice::slice_subrange(t, 0, from + a));
                push_str(&mut out, new.as_str());
                push_chars(&mut out, vstd::slice::slice_subrange(t, from + b, t.len()));
                assert(out@ =~= updated(text@, key@, value@));
                return string_of(out.as_slice());
            },
            None => {},
        }
        proof {
            assert(rest@.skip(line as int) =~= t@.skip(from + line));
            let p = locate(t@.skip(from + line), k@);
            assert(p.behind(line as int).behind(from as int) == p.behind(from + line));
        }
        from = from + line;
    }
}

/// Sets the hotkey in the text of the settings file.
pub fn with_hotkey(text: &str, spec: &str) -> (r: String)
    ensures
        r@ == updated(text@, "hotkey"@, spec@),
{
    with_setting(text, "hotkey", spec)
}

} // verus!
