//! What the settings file says, and that a saved setting is read from it.
//!
//! This is the file format as far as a settings file uses it: keys without quotes,
//! and values that are strings or single words and end on their line.
use vstd::prelude::*;

use crate::config::ConfigView;
use crate::config::rewrite::{self, Place};
use crate::config::rewrite_laws::{self, bare_char, bare_key};
use crate::text;

verus! {

// ---------------------------------------------------------------------------
// One line
// ---------------------------------------------------------------------------
/// Whether `c` is white space within a line.
pub open spec fn blank(c: char) -> bool {
    c == ' ' || c == '\t'
}

/// `s` without the white space that it begins with.
pub open spec fn past_blanks(s: Seq<char>) -> Seq<char>
    decreases s.len(),
{
    if s.len() > 0 && blank(s[0]) {
        past_blanks(s.skip(1))
    } else {
        s
    }
}

/// How many characters at the start of `s` may stand in a key.
pub open spec fn key_len(s: Seq<char>) -> int
    decreases s.len(),
{
    if s.len() > 0 && bare_char(s[0]) {
        1 + key_len(s.skip(1))
    } else {
        0
    }
}

/// Whether a quote closes the basic string that goes on at `i`.
pub open spec fn basic_closed(v: Seq<char>, i: int) -> bool
    decreases v.len() + 1 - i,
{
    if i < 0 || i >= v.len() {
        false
    } else if v[i] == '\\' {
        basic_closed(v, i + 2)
    } else if v[i] == '"' {
        true
    } else {
        basic_closed(v, i + 1)
    }
}

/// Whether `v` begins with a value that ends on its line: a string that is closed, or
/// a word. Lists and inline tables are not among the values that are read here.
pub open spec fn whole_value(v: Seq<char>) -> bool {
    if rewrite::triple(v, '"', 0) {
        rewrite::triple_close(v, '"', 3) < v.len()
    } else if rewrite::triple(v, '\'', 0) {
        rewrite::triple_close(v, '\'', 3) < v.len()
    } else if v.len() > 0 && v[0] == '"' {
        basic_closed(v, 1)
    } else if v.len() > 0 && v[0] == '\'' {
        text::first_at(v, '\'', 1) < v.len()
    } else {
        rewrite::bare_end(v, 0) > 0 && v[0] != '[' && v[0] != '{'
    }
}

/// Whether nothing but white space and a comment is in `s`.
pub open spec fn only_comment(s: Seq<char>) -> bool {
    past_blanks(s).len() == 0 || past_blanks(s)[0] == '#'
}

/// What a line says.
pub enum Line {
    /// Nothing: it is empty or a comment.
    Nothing,
    /// It gives the first the second as its value, as written.
    Setting(Seq<char>, Seq<char>),
    /// It opens a table.
    Header,
    /// It is none of these.
    Other,
}

/// What the line `body` says, which is without its line ending.
pub open spec fn line_reading(body: Seq<char>) -> Line {
    let s = past_blanks(body);
    let k = key_len(s);
    let after_key = past_blanks(s.skip(k));
    let v = past_blanks(after_key.skip(1));
    let e = rewrite::value_extent(v);
    if body.contains('\r') {
        Line::Other
    } else if only_comment(body) {
        Line::Nothing
    } else if s[0] == '[' {
        Line::Header
    } else if k > 0 && after_key.len() > 0 && after_key[0] == '=' && whole_value(v) && only_comment(
        v.skip(e),
    ) {
        Line::Setting(s.subrange(0, k), v.subrange(0, e))
    } else {
        Line::Other
    }
}

// ---------------------------------------------------------------------------
// The file
// ---------------------------------------------------------------------------
/// What the file says.
pub struct TopLevel {
    /// The settings before the first table, in their order, each as its key and its
    /// value as written.
    pub settings: Seq<(Seq<char>, Seq<char>)>,
    /// The text from the first table on.
    pub tables: Seq<char>,
}

/// What the file `t` says; `None` where a line before the first table is not one that
/// can be read here.
pub open spec fn top_level(t: Seq<char>) -> Option<TopLevel>
    decreases t.len(),
{
    let n = text::line_len(t);
    if t.len() == 0 || !(0 < n <= t.len()) {
        Some(TopLevel { settings: Seq::empty(), tables: Seq::empty() })
    } else {
        then_read(line_reading(text::first_body(t)), t, top_level(t.skip(n)))
    }
}

/// What a file says whose first line says `line`, where `t` is the file and `rest` is
/// what follows that line.
pub open spec fn then_read(line: Line, t: Seq<char>, rest: Option<TopLevel>) -> Option<TopLevel> {
    match line {
        Line::Header => Some(TopLevel { settings: Seq::empty(), tables: t }),
        Line::Other => None,
        Line::Nothing => rest,
        Line::Setting(key, value) => match rest {
            Some(r) => Some(
                TopLevel { settings: seq![(key, value)] + r.settings, tables: r.tables },
            ),
            None => None,
        },
    }
}

/// The value that the settings `s` give `key`, as written.
pub open spec fn value_in(s: Seq<(Seq<char>, Seq<char>)>, key: Seq<char>) -> Option<Seq<char>>
    decreases s.len(),
{
    if s.len() == 0 {
        None
    } else if s[0].0 == key {
        Some(s[0].1)
    } else {
        value_in(s.skip(1), key)
    }
}

/// The settings `s` with `value` given to `key`, in its place where it has one and at
/// the end where it has none.
pub open spec fn with_value(
    s: Seq<(Seq<char>, Seq<char>)>,
    key: Seq<char>,
    value: Seq<char>,
) -> Seq<(Seq<char>, Seq<char>)>
    decreases s.len(),
{
    if s.len() == 0 {
        seq![(key, value)]
    } else if s[0].0 == key {
        seq![(key, value)] + s.skip(1)
    } else {
        seq![s[0]] + with_value(s.skip(1), key, value)
    }
}

// ---------------------------------------------------------------------------
// Lemmas on a line
// ---------------------------------------------------------------------------
/// How many characters `past_blanks` leaves out.
spec fn blanks(s: Seq<char>) -> int {
    s.len() - past_blanks(s).len()
}

proof fn lemma_blanks(s: Seq<char>)
    ensures
        0 <= blanks(s) <= s.len(),
        forall|i: int| 0 <= i < blanks(s) ==> blank(#[trigger] s[i]),
        blanks(s) < s.len() ==> !blank(s[blanks(s)]),
        past_blanks(s) == s.skip(blanks(s)),
    decreases s.len(),
{
    if s.len() > 0 && blank(s[0]) {
        let r = s.skip(1);
        lemma_blanks(r);
        assert forall|i: int| 0 <= i < blanks(s) implies blank(#[trigger] s[i]) by {
            if i > 0 {
                assert(s[i] == r[i - 1]);
            }
        }
        assert(r.skip(blanks(r)) =~= s.skip(blanks(s)));
        assert(blanks(r) < r.len() ==> r[blanks(r)] == s[blanks(s)]);
    } else {
        assert(s.skip(0) =~= s);
    }
}

proof fn lemma_blanks_are(s: Seq<char>, n: int)
    requires
        0 <= n <= s.len(),
        forall|i: int| 0 <= i < n ==> blank(#[trigger] s[i]),
        n < s.len() ==> !blank(s[n]),
    ensures
        past_blanks(s) == s.skip(n),
{
    lemma_blanks(s);
    let m = blanks(s);
    if m < n {
        assert(blank(s[m]));
    } else if n < m {
        assert(blank(s[n]));
    }
}

proof fn lemma_key_len(s: Seq<char>)
    ensures
        0 <= key_len(s) <= s.len(),
        forall|i: int| 0 <= i < key_len(s) ==> bare_char(#[trigger] s[i]),
        key_len(s) < s.len() ==> !bare_char(s[key_len(s)]),
    decreases s.len(),
{
    if s.len() > 0 && bare_char(s[0]) {
        let r = s.skip(1);
        lemma_key_len(r);
        assert forall|i: int| 0 <= i < key_len(s) implies bare_char(#[trigger] s[i]) by {
            if i > 0 {
                assert(s[i] == r[i - 1]);
            }
        }
        assert(key_len(r) < r.len() ==> r[key_len(r)] == s[key_len(s)]);
    }
}

proof fn lemma_key_len_is(s: Seq<char>, n: int)
    requires
        0 <= n <= s.len(),
        forall|i: int| 0 <= i < n ==> bare_char(#[trigger] s[i]),
        n < s.len() ==> !bare_char(s[n]),
    ensures
        key_len(s) == n,
{
    lemma_key_len(s);
    let m = key_len(s);
    if m < n {
        assert(bare_char(s[m]));
    } else if n < m {
        assert(bare_char(s[n]));
    }
}

/// Whether `body` is `i` blanks, `key`, `g` blanks, `=`, `p` blanks, and then a value
/// of `e` characters with nothing but a comment behind it.
spec fn parts(body: Seq<char>, key: Seq<char>, i: int, g: int, p: int, e: int) -> bool {
    let k = key.len();
    let start = i + k + g + 1 + p;
    &&& 0 <= i && 0 <= g && 0 <= p && 0 <= e && start + e <= body.len()
    &&& forall|j: int| 0 <= j < i ==> blank(#[trigger] body[j])
    &&& body.subrange(i, i + k) == key
    &&& forall|j: int| i + k <= j < i + k + g ==> blank(#[trigger] body[j])
    &&& body[i + k + g] == '='
    &&& forall|j: int| i + k + g + 1 <= j < start ==> blank(#[trigger] body[j])
    &&& whole_value(body.skip(start))
    &&& rewrite::value_extent(body.skip(start)) == e
    &&& only_comment(body.skip(start + e))
    &&& !body.contains('\r')
}

/// A value begins with something, and not with white space.
proof fn lemma_value_begins(v: Seq<char>)
    requires
        whole_value(v),
    ensures
        v.len() > 0,
        !text::white_space(v[0]),
{
}

/// The parts of a line that is a setting.
proof fn lemma_setting_parts(body: Seq<char>) -> (r: (int, int, int, int))
    requires
        line_reading(body) is Setting,
    ensures
        match line_reading(body) {
            Line::Setting(key, value) => {
                let start = r.0 + key.len() + r.1 + 1 + r.2;
                &&& bare_key(key)
                &&& parts(body, key, r.0, r.1, r.2, r.3)
                &&& value == body.subrange(start, start + r.3)
            },
            _ => false,
        },
{
    let s = past_blanks(body);
    lemma_blanks(body);
    let i = blanks(body);
    let k = key_len(s);
    lemma_key_len(s);
    let after = s.skip(k);
    lemma_blanks(after);
    let g = blanks(after);
    let eq = past_blanks(after);
    let tail = eq.skip(1);
    lemma_blanks(tail);
    let p = blanks(tail);
    let v = past_blanks(tail);
    let e = rewrite::value_extent(v);
    let key = s.subrange(0, k);
    let start = i + k + g + 1 + p;
    assert(after =~= body.skip(i + k));
    assert(eq =~= body.skip(i + k + g));
    assert(tail =~= body.skip(i + k + g + 1));
    assert(v =~= body.skip(start));
    rewrite_laws::lemma_extent(v);
    assert(v.skip(e) =~= body.skip(start + e));
    assert(v.subrange(0, e) =~= body.subrange(start, start + e));
    assert(body.subrange(i, i + k) =~= key);
    assert(eq[0] == body[i + k + g]);
    assert forall|j: int| i + k <= j < i + k + g implies blank(#[trigger] body[j]) by {
        assert(body[j] == after[j - i - k]);
    }
    assert forall|j: int| i + k + g + 1 <= j < start implies blank(#[trigger] body[j]) by {
        assert(body[j] == tail[j - i - k - g - 1]);
    }
    assert forall|j: int| 0 <= j < key.len() implies bare_char(#[trigger] key[j]) by {
        assert(key[j] == s[j]);
    }
    (i, g, p, e)
}

/// A line that is made of these parts is a setting.
#[verifier::rlimit(30)]
proof fn lemma_parts_setting(body: Seq<char>, key: Seq<char>, i: int, g: int, p: int, e: int)
    requires
        bare_key(key),
        parts(body, key, i, g, p, e),
    ensures
        ({
            let start = i + key.len() + g + 1 + p;
            line_reading(body) == Line::Setting(key, body.subrange(start, start + e))
        }),
{
    let k = key.len() as int;
    let start = i + k + g + 1 + p;
    assert forall|j: int| i <= j < i + k implies bare_char(#[trigger] body[j]) by {
        assert(body[j] == body.subrange(i, i + k)[j - i]);
        assert(bare_char(key[j - i]));
    }
    assert(bare_char(body[i]));
    lemma_blanks_are(body, i);
    let s = body.skip(i);
    assert forall|j: int| 0 <= j < k implies bare_char(#[trigger] s[j]) by {
        assert(s[j] == body[i + j]);
    }
    assert(s[k] == body[i + k]);
    assert(g > 0 ==> blank(body[i + k]));
    lemma_key_len_is(s, k);
    let after = s.skip(k);
    assert(after =~= body.skip(i + k));
    assert forall|j: int| 0 <= j < g implies blank(#[trigger] after[j]) by {
        assert(after[j] == body[i + k + j]);
    }
    assert(after[g] == body[i + k + g]);
    lemma_blanks_are(after, g);
    let eq = after.skip(g);
    let tail = eq.skip(1);
    assert(tail =~= body.skip(i + k + g + 1));
    let v = body.skip(start);
    lemma_value_begins(v);
    assert forall|j: int| 0 <= j < p implies blank(#[trigger] tail[j]) by {
        assert(tail[j] == body[i + k + g + 1 + j]);
    }
    assert(tail[p] == v[0]);
    lemma_blanks_are(tail, p);
    assert(tail.skip(p) =~= v);
    assert(v.skip(e) =~= body.skip(start + e));
    assert(v.subrange(0, e) =~= body.subrange(start, start + e));
    assert(s.subrange(0, k) =~= key);
    assert(eq[0] == body[i + k + g]);
    assert(s[0] == body[i]);
}

/// Where the value of a setting is found for a change.
proof fn lemma_span_is(body: Seq<char>, key: Seq<char>, i: int, g: int, p: int, e: int)
    requires
        bare_key(key),
        parts(body, key, i, g, p, e),
    ensures
        rewrite_laws::assigns(body, key, i, g),
        !rewrite::is_header(body),
        ({
            let start = i + key.len() + g + 1 + p;
            rewrite::value_span(body, key) == Some((start, start + e))
        }),
{
    let k = key.len() as int;
    let from = i + k + g + 1;
    assert forall|j: int| 0 <= j < i implies text::white_space(#[trigger] body[j]) by {
        assert(blank(body[j]));
    }
    assert forall|j: int| i + k <= j < i + k + g implies text::white_space(#[trigger] body[j]) by {
        assert(blank(body[j]));
    }
    rewrite_laws::lemma_span_of(body, key, i, g);
    let tail = body.skip(from);
    let v = body.skip(from + p);
    lemma_value_begins(v);
    assert forall|j: int| 0 <= j < p implies text::white_space(#[trigger] tail[j]) by {
        assert(tail[j] == body[from + j]);
        assert(blank(body[from + j]));
    }
    assert(tail[p] == v[0]);
    rewrite_laws::lemma_space_is(tail, p);
}

/// A line that says nothing is passed over.
proof fn lemma_nothing(body: Seq<char>, key: Seq<char>)
    requires
        bare_key(key),
        line_reading(body) is Nothing,
    ensures
        !rewrite::is_header(body),
        rewrite::value_span(body, key) is None,
{
    lemma_blanks(body);
    let n = blanks(body);
    assert forall|j: int| 0 <= j < n implies text::white_space(#[trigger] body[j]) by {
        assert(blank(body[j]));
    }
    assert(past_blanks(body).len() > 0 ==> body[n] == '#');
    rewrite_laws::lemma_space_is(body, n);
    rewrite_laws::lemma_space(body);
    assert(bare_char(key[0]));
    if rewrite::value_span(body, key) is Some {
        let (i, g) = rewrite_laws::lemma_span_some(body, key);
        rewrite_laws::lemma_bare(key);
        assert(body[i] == body.subrange(i, i + key.len())[0]);
        rewrite_laws::lemma_space_is(body, i);
    }
}

/// A line that opens a table is taken for one.
proof fn lemma_header(body: Seq<char>)
    requires
        line_reading(body) is Header,
    ensures
        rewrite::is_header(body),
{
    lemma_blanks(body);
    let n = blanks(body);
    assert forall|j: int| 0 <= j < n implies text::white_space(#[trigger] body[j]) by {
        assert(blank(body[j]));
    }
    assert(past_blanks(body)[0] == body[n]);
    rewrite_laws::lemma_space_is(body, n);
    rewrite_laws::lemma_space(body);
}

proof fn lemma_basic_closed(v: Seq<char>, s: Seq<char>, i: int)
    requires
        0 <= i,
        i + rewrite::escaped_all(s).len() < v.len(),
        v.subrange(i, i + rewrite::escaped_all(s).len()) == rewrite::escaped_all(s),
        v[i + rewrite::escaped_all(s).len()] == '"',
    ensures
        basic_closed(v, i),
    decreases s.len(),
{
    if s.len() > 0 {
        let all = rewrite::escaped_all(s);
        let head = rewrite::escaped(s[0]);
        let rest = rewrite::escaped_all(s.drop_first());
        let h = head.len() as int;
        assert(all == head + rest);
        assert forall|j: int| 0 <= j < h implies v[i + j] == #[trigger] head[j] by {
            assert(v.subrange(i, i + all.len())[j] == all[j]);
        }
        assert(v.subrange(i + h, i + h + rest.len()) =~= rest) by {
            assert forall|j: int| 0 <= j < rest.len() implies v[i + h + j] == #[trigger] rest[j] by {
                assert(v.subrange(i, i + all.len())[h + j] == all[h + j]);
            }
        }
        lemma_basic_closed(v, s.drop_first(), i + h);
        rewrite_laws::lemma_escape(s[0]);
        assert(v[i] == head[0]);
        if h == 6 {
            assert(v[i + 2] == head[2] && v[i + 3] == head[3] && v[i + 4] == head[4] && v[i + 5]
                == head[5]);
            assert(basic_closed(v, i + 5) == basic_closed(v, i + 6));
            assert(basic_closed(v, i + 4) == basic_closed(v, i + 5));
            assert(basic_closed(v, i + 3) == basic_closed(v, i + 4));
            assert(basic_closed(v, i + 2) == basic_closed(v, i + 3));
        }
    }
}

/// A quoted string with a comment behind it is a value.
proof fn lemma_quoted_whole(s: Seq<char>, rest: Seq<char>)
    requires
        only_comment(rest),
    ensures
        whole_value(rewrite::quoted(s) + rest),
        rewrite::value_extent(rewrite::quoted(s) + rest) == rewrite::quoted(s).len(),
{
    let v = rewrite::quoted(s) + rest;
    let inner = rewrite::escaped_all(s);
    assert(v.subrange(1, 1 + inner.len() as int) =~= inner);
    lemma_basic_closed(v, s, 1);
    rewrite_laws::lemma_quoted_extent(s, rest);
    if s.len() > 0 {
        rewrite_laws::lemma_escape(s[0]);
        assert(inner[0] == rewrite::escaped(s[0])[0]);
        assert(v[1] == inner[0]);
    } else {
        assert(inner.len() == 0);
        assert(rest.len() > 0 ==> v[2] == rest[0]);
    }
}

/// The line of a setting with another value.
proof fn lemma_changed_line(body: Seq<char>, key: Seq<char>, s: Seq<char>)
    requires
        match line_reading(body) {
            Line::Setting(k, _) => k == key,
            _ => false,
        },
        bare_key(key),
    ensures
        match rewrite::value_span(body, key) {
            Some((a, b)) => {
                let new = body.subrange(0, a) + rewrite::quoted(s) + body.skip(b);
                &&& 0 <= a <= b <= body.len()
                &&& !rewrite::is_header(body)
                &&& line_reading(new) == Line::Setting(key, rewrite::quoted(s))
                &&& !new.contains('\r')
            },
            None => false,
        },
{
    let (i, g, p, e) = lemma_setting_parts(body);
    lemma_span_is(body, key, i, g, p, e);
    let k = key.len() as int;
    let a = i + k + g + 1 + p;
    let b = a + e;
    let q = rewrite::quoted(s);
    let n = q.len() as int;
    let new = body.subrange(0, a) + q + body.skip(b);
    rewrite_laws::lemma_quoted_plain(s);
    lemma_quoted_whole(s, body.skip(b));
    assert(new.skip(a) =~= q + body.skip(b));
    assert(new.skip(a + n) =~= body.skip(b));
    assert(forall|j: int| 0 <= j < a ==> #[trigger] new[j] == body[j]);
    assert(new.subrange(i, i + k) =~= body.subrange(i, i + k));
    assert(!new.contains('\r')) by {
        assert forall|j: int| 0 <= j < new.len() implies #[trigger] new[j] != '\r' by {
            if j < a {
                assert(body.contains(body[j]));
            } else if j < a + n {
                assert(new[j] == q[j - a]);
            } else {
                assert(new[j] == body[j - n - a + b]);
                assert(body.contains(body[j - n - a + b]));
            }
        }
    }
    assert(parts(new, key, i, g, p, n));
    lemma_parts_setting(new, key, i, g, p, n);
    assert(new.subrange(a, a + n) =~= q);
}

/// The line that is added for a setting.
proof fn lemma_new_line(key: Seq<char>, s: Seq<char>)
    requires
        bare_key(key),
    ensures
        ({
            let body = key + seq![' ', '=', ' '] + rewrite::quoted(s);
            &&& line_reading(body) == Line::Setting(key, rewrite::quoted(s))
            &&& !body.contains('\r')
            &&& body.len() > 0
            &&& body.last() == '"'
            &&& forall|i: int| 0 <= i < body.len() ==> #[trigger] body[i] != '\n'
        }),
{
    let q = rewrite::quoted(s);
    let k = key.len() as int;
    let n = q.len() as int;
    let body = key + seq![' ', '=', ' '] + q;
    rewrite_laws::lemma_bare(key);
    rewrite_laws::lemma_quoted_plain(s);
    assert(body.last() == q.last());
    assert forall|i: int| 0 <= i < body.len() implies #[trigger] body[i] != '\n' && body[i] != '\r' by {
        if i < k {
            assert(body[i] == key[i]);
        } else if i >= k + 3 {
            assert(body[i] == q[i - k - 3]);
        }
    }
    lemma_quoted_whole(s, Seq::empty());
    assert(body.skip(k + 3) =~= q + Seq::<char>::empty());
    assert(body.skip(k + 3 + n) =~= Seq::<char>::empty());
    assert(body.subrange(0, k) =~= key);
    assert(parts(body, key, 0, 1, 1, n));
    lemma_parts_setting(body, key, 0, 1, 1, n);
    assert(body.subrange(k + 3, k + 3 + n) =~= q);
}

// ---------------------------------------------------------------------------
// Lemmas on the file
// ---------------------------------------------------------------------------
/// A file is read line by line.
proof fn lemma_read_line(body: Seq<char>, end: Seq<char>, rest: Seq<char>)
    requires
        forall|i: int| 0 <= i < body.len() ==> #[trigger] body[i] != '\n',
        ({
            ||| end == seq!['\n'] && (body.len() > 0 ==> body.last() != '\r')
            ||| end == seq!['\r', '\n']
            ||| end == Seq::<char>::empty() && rest == Seq::<char>::empty() && body.len() > 0
        }),
    ensures
        top_level(body + end + rest) == then_read(
            line_reading(body),
            body + end + rest,
            top_level(rest),
        ),
        text::first_body(body + end + rest) == body,
        text::line_len(body + end + rest) == body.len() + end.len(),
{
    let t = body + end + rest;
    if end.len() == 0 {
        assert(t =~= body);
        rewrite_laws::lemma_unclosed(body);
        assert(t.skip(t.len() as int) =~= rest);
    } else {
        text::lemma_line_then(body, end, rest);
    }
}

/// A file with a line for `key` in front.
proof fn lemma_read_added(key: Seq<char>, s: Seq<char>, eol: Seq<char>, rest: Seq<char>)
    requires
        bare_key(key),
        eol == seq!['\n'] || eol == seq!['\r', '\n'],
    ensures
        top_level(rewrite::setting_line(key, rewrite::quoted(s), eol) + rest) == then_read(
            Line::Setting(key, rewrite::quoted(s)),
            rewrite::setting_line(key, rewrite::quoted(s), eol) + rest,
            top_level(rest),
        ),
{
    lemma_new_line(key, s);
    let body = key + seq![' ', '=', ' '] + rewrite::quoted(s);
    lemma_read_line(body, eol, rest);
}

/// What the file says once `key` has been set.
spec fn saved(r: TopLevel, key: Seq<char>, s: Seq<char>) -> TopLevel {
    TopLevel { settings: with_value(r.settings, key, rewrite::quoted(s)), tables: r.tables }
}

#[verifier::rlimit(60)]
proof fn lemma_saved(t: Seq<char>, key: Seq<char>, s: Seq<char>, eol: Seq<char>)
    requires
        bare_key(key),
        eol == seq!['\n'] || eol == seq!['\r', '\n'],
        top_level(t) is Some,
    ensures
        top_level(rewrite::spliced(t, rewrite::locate(t, key), key, rewrite::quoted(s), eol))
            == Some(saved(top_level(t)->0, key, s)),
    decreases t.len(), 1int,
{
    let q = rewrite::quoted(s);
    let place = rewrite::locate(t, key);
    let all = rewrite::spliced(t, place, key, q, eol);
    let none = Seq::<(Seq<char>, Seq<char>)>::empty();
    if t.len() == 0 {
        lemma_read_added(key, s, eol, t);
        assert(all =~= rewrite::setting_line(key, q, eol) + t);
        assert(seq![(key, q)] + none =~= seq![(key, q)]);
    } else {
        let end = rewrite_laws::lemma_line_parts(t);
        let body = text::first_body(t);
        let n = text::line_len(t);
        let rest = t.skip(n);
        text::lemma_line(t);
        if end.len() == 0 {
            assert(rest =~= Seq::<char>::empty());
        }
        lemma_read_line(body, end, rest);
        match line_reading(body) {
            Line::Header => {
                lemma_header(body);
                lemma_read_added(key, s, eol, t);
                assert(all =~= rewrite::setting_line(key, q, eol) + t);
                assert(seq![(key, q)] + none =~= seq![(key, q)]);
            },
            Line::Nothing => {
                lemma_nothing(body, key);
                lemma_saved_behind(t, key, s, eol, body, end, rest);
            },
            Line::Setting(k, v) => {
                let (i, g, p, e) = lemma_setting_parts(body);
                lemma_span_is(body, k, i, g, p, e);
                let more = top_level(rest)->0;
                let settings = seq![(k, v)] + more.settings;
                assert(settings.skip(1) =~= more.settings);
                if k == key {
                    lemma_changed_line(body, key, s);
                    let (a, b) = rewrite::value_span(body, key)->0;
                    let new = body.subrange(0, a) + q + body.skip(b);
                    assert(all =~= new + end + rest);
                    assert forall|j: int| 0 <= j < new.len() implies #[trigger] new[j] != '\n' by {
                        rewrite_laws::lemma_quoted_plain(s);
                        if j < a {
                            assert(new[j] == body[j]);
                        } else if j < a + q.len() {
                            assert(new[j] == q[j - a]);
                        } else {
                            assert(new[j] == body[j - q.len() - a + b]);
                        }
                    }
                    assert(new.len() > 0 ==> new.contains(new.last()));
                    assert(new.len() > 0) by {
                        rewrite_laws::lemma_quoted_plain(s);
                    }
                    lemma_read_line(new, end, rest);
                } else {
                    rewrite_laws::lemma_one_key(body, k, key, i, g);
                    lemma_saved_behind(t, key, s, eol, body, end, rest);
                }
            },
            Line::Other => {},
        }
    }
}

/// The same behind a line that stays as it is.
#[verifier::rlimit(60)]
proof fn lemma_saved_behind(
    t: Seq<char>,
    key: Seq<char>,
    s: Seq<char>,
    eol: Seq<char>,
    body: Seq<char>,
    end: Seq<char>,
    rest: Seq<char>,
)
    requires
        bare_key(key),
        eol == seq!['\n'] || eol == seq!['\r', '\n'],
        t == body + end + rest,
        body == text::first_body(t),
        rest == t.skip(text::line_len(t)),
        text::line_len(t) == body.len() + end.len(),
        forall|i: int| 0 <= i < body.len() ==> #[trigger] body[i] != '\n',
        ({
            ||| end == seq!['\n'] && (body.len() > 0 ==> body.last() != '\r')
            ||| end == seq!['\r', '\n']
            ||| end == Seq::<char>::empty() && rest == Seq::<char>::empty() && body.len() > 0
        }),
        t.len() > 0,
        !rewrite::is_header(body),
        rewrite::value_span(body, key) is None,
        line_reading(body) is Nothing || line_reading(body) is Setting,
        !body.contains('\r'),
        top_level(rest) is Some,
    ensures
        top_level(rewrite::spliced(t, rewrite::locate(t, key), key, rewrite::quoted(s), eol))
            == then_read(line_reading(body), t, Some(saved(top_level(rest)->0, key, s))),
    decreases t.len(), 0int,
{
    let q = rewrite::quoted(s);
    let n = text::line_len(t);
    let p2 = rewrite::locate(rest, key);
    assert(rewrite::locate(t, key) == p2.behind(n));
    if end.len() > 0 {
        lemma_saved(rest, key, s, eol);
        let all2 = rewrite::spliced(rest, p2, key, q, eol);
        assert(rewrite::spliced(t, p2.behind(n), key, q, eol) == body + end + all2) by {
            rewrite_laws::lemma_locate_bounds(rest, key);
            assert((body + end).last() == '\n');
            lemma_splice_behind(body + end, rest, p2, key, q, eol);
            assert(body + end + rest == t);
            assert(body + end + all2 == (body + end) + all2);
        }
        lemma_read_line(body, end, all2);
    } else {
        assert(t =~= body);
        assert(p2 == Place::End(0));
        lemma_saved_open(t, key, s, eol);
    }
}

/// A change behind the closed lines `head` leaves them in front.
proof fn lemma_splice_behind(
    head: Seq<char>,
    rest: Seq<char>,
    place: Place,
    key: Seq<char>,
    q: Seq<char>,
    eol: Seq<char>,
)
    requires
        head.len() > 0,
        head.last() == '\n',
        match place {
            Place::Value(a, b) => 0 <= a <= b <= rest.len(),
            Place::End(a) => 0 <= a <= rest.len(),
        },
    ensures
        rewrite::spliced(head + rest, place.behind(head.len() as int), key, q, eol) == head
            + rewrite::spliced(rest, place, key, q, eol),
{
    let p = rewrite_laws::before(rest, place, key, eol);
    let r = rewrite_laws::behind(rest, place, eol);
    rewrite_laws::lemma_frame(rest, place, key, q, eol);
    rewrite_laws::lemma_frame(head + rest, place.behind(head.len() as int), key, q, eol);
    rewrite_laws::lemma_frame_later(head, rest, place, key, eol);
    assert(head + p + q + r =~= head + (p + q + r));
}

/// The same behind a last line that was left open.
proof fn lemma_saved_open(t: Seq<char>, key: Seq<char>, s: Seq<char>, eol: Seq<char>)
    requires
        bare_key(key),
        eol == seq!['\n'] || eol == seq!['\r', '\n'],
        t.len() > 0,
        forall|i: int| 0 <= i < t.len() ==> #[trigger] t[i] != '\n',
        !t.contains('\r'),
        line_reading(t) is Nothing || line_reading(t) is Setting,
    ensures
        top_level(rewrite::spliced(t, Place::End(t.len() as int), key, rewrite::quoted(s), eol))
            == then_read(
            line_reading(t),
            t,
            Some(saved(top_level(Seq::empty())->0, key, s)),
        ),
{
    let q = rewrite::quoted(s);
    let empty = Seq::<char>::empty();
    let none = Seq::<(Seq<char>, Seq<char>)>::empty();
    let n = t.len() as int;
    assert(t[n - 1] != '\n');
    assert(t.contains(t[n - 1]));
    let line = rewrite::setting_line(key, q, eol) + empty;
    assert(rewrite::spliced(t, Place::End(n), key, q, eol) =~= t + eol + line);
    lemma_read_line(t, eol, line);
    lemma_read_added(key, s, eol, empty);
    assert(seq![(key, q)] + none =~= seq![(key, q)]);
}

proof fn lemma_value_in(s: Seq<(Seq<char>, Seq<char>)>, key: Seq<char>, value: Seq<char>)
    ensures
        value_in(with_value(s, key, value), key) == Some(value),
        forall|other: Seq<char>|
            other != key ==> #[trigger] value_in(with_value(s, key, value), other) == value_in(
                s,
                other,
            ),
    decreases s.len(),
{
    let w = with_value(s, key, value);
    if s.len() == 0 {
        assert(w.skip(1) =~= Seq::<(Seq<char>, Seq<char>)>::empty());
    } else if s[0].0 == key {
        assert(w.skip(1) =~= s.skip(1));
    } else {
        lemma_value_in(s.skip(1), key, value);
        assert(w.skip(1) =~= with_value(s.skip(1), key, value));
        assert(w[0] == s[0]);
    }
    assert forall|other: Seq<char>| other != key implies #[trigger] value_in(w, other) == value_in(
        s,
        other,
    ) by {
        assert(value_in(w.skip(1), other) == value_in(s.skip(1), other) || s.len() == 0);
    }
}

/// What is saved is what the file then says. Where a file can be read, it can be read
/// once a setting has been set: it gives that setting the string that was set and
/// every other one the value that it had, in the same order, and its tables are as
/// they were.
pub proof fn law_a_saved_file_is_read_back(t: Seq<char>, key: Seq<char>, value: Seq<char>)
    requires
        bare_key(key),
        top_level(t) is Some,
    ensures
        match (top_level(t), top_level(rewrite::updated(t, key, value))) {
            (Some(old), Some(new)) => {
                &&& new.settings == with_value(old.settings, key, rewrite::quoted(value))
                &&& value_in(new.settings, key) == Some(rewrite::quoted(value))
                &&& rewrite::unquoted(rewrite::quoted(value)) == Some(value)
                &&& forall|other: Seq<char>|
                    other != key ==> #[trigger] value_in(new.settings, other) == value_in(
                        old.settings,
                        other,
                    )
                &&& new.tables == old.tables
            },
            _ => false,
        },
{
    lemma_saved(t, key, value, rewrite::line_ending(t));
    lemma_value_in((top_level(t)->0).settings, key, rewrite::quoted(value));
    rewrite_laws::law_quoting_is_read_back(value);
}

// ---------------------------------------------------------------------------
// The settings in the file
// ---------------------------------------------------------------------------
/// What the inside of a string between three `"` stands for: a quote is a quote there.
pub open spec fn long_text(s: Seq<char>) -> Option<Seq<char>>
    decreases s.len(),
{
    if s.len() == 0 {
        Some(Seq::empty())
    } else {
        let n = if s[0] != '\\' {
            1
        } else if s.len() > 1 && s[1] == 'u' {
            6
        } else {
            2int
        };
        if n > s.len() {
            None
        } else {
            let first = if s[0] == '"' {
                Some(seq!['"'])
            } else {
                rewrite::unescaped(s.subrange(0, n))
            };
            match (first, long_text(s.skip(n))) {
                (Some(c), Some(rest)) => Some(c + rest),
                _ => None,
            }
        }
    }
}

/// The string that the value `v` is, as written.
pub open spec fn text_value(v: Seq<char>) -> Option<Seq<char>> {
    let n = v.len();
    if rewrite::triple(v, '"', 0) {
        long_text(v.subrange(3, n - 3))
    } else if rewrite::triple(v, '\'', 0) {
        Some(v.subrange(3, n - 3))
    } else if n >= 2 && v[0] == '\'' {
        Some(v.subrange(1, n - 1))
    } else {
        rewrite::unquoted(v)
    }
}

/// The truth value that the value `v` is, as written.
pub open spec fn flag_value(v: Seq<char>) -> Option<bool> {
    if v == "true"@ {
        Some(true)
    } else if v == "false"@ {
        Some(false)
    } else {
        None
    }
}

/// The number that the value `v` is, as written in decimal.
pub open spec fn count_value(v: Seq<char>) -> Option<usize> {
    if exists|n: usize| v == #[trigger] text::decimal(n as nat) {
        Some(choose|n: usize| v == #[trigger] text::decimal(n as nat))
    } else {
        None
    }
}

/// A setting that may be missing: `None` where it has a value of another kind.
pub open spec fn field<V>(
    s: Seq<(Seq<char>, Seq<char>)>,
    key: Seq<char>,
    read: spec_fn(Seq<char>) -> Option<V>,
) -> Option<Option<V>> {
    match value_in(s, key) {
        None => Some(None),
        Some(v) => match read(v) {
            Some(x) => Some(Some(x)),
            None => None,
        },
    }
}

/// Whether there is a setting of this name.
pub open spec fn known(key: Seq<char>) -> bool {
    ||| key == "hotkey"@
    ||| key == "tray"@
    ||| key == "updates"@
    ||| key == "lines"@
    ||| key == "wrap"@
    ||| key == "theme"@
    ||| key == "on_close"@
}

/// Whether every setting is one that there is, and none is there twice.
pub open spec fn orderly(s: Seq<(Seq<char>, Seq<char>)>) -> bool {
    &&& forall|i: int| 0 <= i < s.len() ==> known((#[trigger] s[i]).0)
    &&& forall|i: int, j: int| 0 <= i < j < s.len() ==> (#[trigger] s[i]).0 != (#[trigger] s[j]).0
}

/// The settings that `s` gives.
pub open spec fn config_in(s: Seq<(Seq<char>, Seq<char>)>) -> Option<ConfigView> {
    let text = |v: Seq<char>| text_value(v);
    let flag = |v: Seq<char>| flag_value(v);
    let count = |v: Seq<char>| count_value(v);
    match (
        (field(s, "hotkey"@, text), field(s, "theme"@, text), field(s, "on_close"@, text)),
        (field(s, "tray"@, flag), field(s, "updates"@, flag), field(s, "wrap"@, flag)),
        field(s, "lines"@, count),
    ) {
        (
            (Some(hotkey), Some(theme), Some(on_close)),
            (Some(tray), Some(updates), Some(wrap)),
            Some(lines),
        ) => Some(ConfigView { hotkey, tray, updates, lines, wrap, theme, on_close }),
        _ => None,
    }
}

/// The settings that the file `t` holds; `None` where it is not one that can be read
/// here, or holds what is no setting.
pub open spec fn config_of(t: Seq<char>) -> Option<ConfigView> {
    match top_level(t) {
        Some(r) => if r.tables.len() == 0 && orderly(r.settings) {
            config_in(r.settings)
        } else {
            None
        },
        None => None,
    }
}

/// `c` with the string `value` for the setting `key`.
pub open spec fn with_text(c: ConfigView, key: Seq<char>, value: Seq<char>) -> ConfigView {
    if key == "hotkey"@ {
        ConfigView { hotkey: Some(value), ..c }
    } else if key == "theme"@ {
        ConfigView { theme: Some(value), ..c }
    } else {
        ConfigView { on_close: Some(value), ..c }
    }
}

/// The settings that the program saves.
pub open spec fn saved_key(key: Seq<char>) -> bool {
    key == "hotkey"@ || key == "theme"@ || key == "on_close"@
}

proof fn lemma_orderly(s: Seq<(Seq<char>, Seq<char>)>, key: Seq<char>, value: Seq<char>)
    requires
        orderly(s),
        known(key),
    ensures
        orderly(with_value(s, key, value)),
        forall|k: Seq<char>|
            k != key && #[trigger] named(with_value(s, key, value), k) ==> named(s, k),
    decreases s.len(),
{
    let w = with_value(s, key, value);
    if s.len() > 0 {
        let rest = s.skip(1);
        assert forall|i: int, j: int| 0 <= i < j < rest.len() implies (#[trigger] rest[i]).0 != (
        #[trigger] rest[j]).0 by {
            assert(rest[i] == s[i + 1] && rest[j] == s[j + 1]);
        }
        assert forall|i: int| 0 <= i < rest.len() implies known((#[trigger] rest[i]).0) by {
            assert(rest[i] == s[i + 1]);
        }
        lemma_orderly(rest, key, value);
        let tail = if s[0].0 == key {
            rest
        } else {
            with_value(rest, key, value)
        };
        assert(w.len() == tail.len() + 1);
        assert(w[0].0 == s[0].0);
        assert forall|i: int| 0 < i < w.len() implies #[trigger] w[i] == tail[i - 1] by {}
        assert forall|j: int| 0 < j < w.len() implies s[0].0 != (#[trigger] w[j]).0 by {
            let k = w[j].0;
            assert(tail[j - 1].0 == k);
            assert(named(tail, k));
            if s[0].0 == k {
                if s[0].0 != key {
                    assert(named(rest, k));
                }
                let i = choose|i: int| 0 <= i < rest.len() && (#[trigger] rest[i]).0 == k;
                assert(rest[i] == s[i + 1]);
                assert(s[0].0 != s[i + 1].0);
            }
        }
        assert forall|i: int, j: int| 0 <= i < j < w.len() implies (#[trigger] w[i]).0 != (
        #[trigger] w[j]).0 by {
            if i > 0 {
                assert(w[i] == tail[i - 1] && w[j] == tail[j - 1]);
            }
        }
        assert forall|k: Seq<char>| k != key && #[trigger] named(w, k) implies named(s, k) by {
            let i = choose|i: int| 0 <= i < w.len() && (#[trigger] w[i]).0 == k;
            if i == 0 {
                assert(s[0].0 == k);
            } else {
                assert(tail[i - 1].0 == k);
                assert(named(tail, k));
                assert(named(rest, k));
                let j = choose|j: int| 0 <= j < rest.len() && (#[trigger] rest[j]).0 == k;
                assert(s[j + 1].0 == k);
            }
        }
    }
}

/// Whether a setting of this name is among `s`.
spec fn named(s: Seq<(Seq<char>, Seq<char>)>, key: Seq<char>) -> bool {
    exists|i: int| 0 <= i < s.len() && (#[trigger] s[i]).0 == key
}

proof fn lemma_quoted_text(value: Seq<char>)
    ensures
        text_value(rewrite::quoted(value)) == Some(value),
{
    let v = rewrite::quoted(value);
    let inner = rewrite::escaped_all(value);
    rewrite_laws::law_quoting_is_read_back(value);
    rewrite_laws::lemma_quoted_plain(value);
    if value.len() > 0 {
        rewrite_laws::lemma_escape(value[0]);
        assert(inner[0] == rewrite::escaped(value[0])[0]);
        assert(v[1] == inner[0]);
    }
}

/// The settings that the program saves are written without quotes.
proof fn lemma_saved_keys(key: Seq<char>)
    requires
        saved_key(key),
    ensures
        bare_key(key),
{
    reveal_strlit("hotkey");
    reveal_strlit("theme");
    reveal_strlit("on_close");
}

/// No two settings have one name.
proof fn lemma_names_differ()
    ensures
        "hotkey"@ != "theme"@,
        "hotkey"@ != "on_close"@,
        "theme"@ != "on_close"@,
        forall|key: Seq<char>|
            #[trigger] saved_key(key) ==> key != "tray"@ && key != "updates"@ && key != "lines"@
                && key != "wrap"@,
{
    reveal_strlit("hotkey");
    reveal_strlit("theme");
    reveal_strlit("on_close");
    reveal_strlit("tray");
    reveal_strlit("updates");
    reveal_strlit("lines");
    reveal_strlit("wrap");
    assert("hotkey"@[0] == 'h' && "theme"@[0] == 't' && "on_close"@[0] == 'o');
    assert("tray"@[1] == 'r' && "updates"@[0] == 'u' && "lines"@[0] == 'l' && "wrap"@[0] == 'w');
    assert("theme"@[1] == 'h');
}

/// A setting that is saved is the only one that changes: the file then holds the
/// settings that it held, with the new value in the one that was set.
pub proof fn law_a_saved_setting_changes_no_other(t: Seq<char>, key: Seq<char>, value: Seq<char>)
    requires
        saved_key(key),
        config_of(t) is Some,
    ensures
        config_of(rewrite::updated(t, key, value)) == Some(
            with_text(config_of(t)->0, key, value),
        ),
{
    lemma_saved_keys(key);
    lemma_names_differ();
    law_a_saved_file_is_read_back(t, key, value);
    lemma_quoted_text(value);
    let old = top_level(t)->0;
    let new = top_level(rewrite::updated(t, key, value))->0;
    lemma_orderly(old.settings, key, rewrite::quoted(value));
    assert(forall|other: Seq<char>|
        other != key ==> #[trigger] value_in(new.settings, other) == value_in(old.settings, other));
}

} // verus!
