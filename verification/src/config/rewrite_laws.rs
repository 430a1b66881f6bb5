//! What changing a setting leaves alone, and what it is read back as.
use vstd::prelude::*;

use crate::config::rewrite::{self, Place};
use crate::text;

verus! {

/// Whether `c` may stand in a key that is written without quotes.
pub open spec fn bare_char(c: char) -> bool {
    'a' <= c <= 'z' || 'A' <= c <= 'Z' || '0' <= c <= '9' || c == '_' || c == '-'
}

/// Whether `key` is a key that needs no quotes.
pub open spec fn bare_key(key: Seq<char>) -> bool {
    key.len() > 0 && forall|i: int| 0 <= i < key.len() ==> bare_char(#[trigger] key[i])
}

// ---------------------------------------------------------------------------
// White space and lines
// ---------------------------------------------------------------------------
pub(crate) proof fn lemma_space(s: Seq<char>)
    ensures
        0 <= rewrite::space_len(s) <= s.len(),
        forall|i: int| 0 <= i < rewrite::space_len(s) ==> text::white_space(#[trigger] s[i]),
        rewrite::space_len(s) < s.len() ==> !text::white_space(s[rewrite::space_len(s)]),
        text::trim_start(s) == s.skip(rewrite::space_len(s)),
    decreases s.len(),
{
    if s.len() > 0 && text::white_space(s[0]) {
        let r = s.drop_first();
        lemma_space(r);
        assert(rewrite::space_len(s) == rewrite::space_len(r) + 1);
        assert forall|i: int| 0 <= i < rewrite::space_len(s) implies text::white_space(#[trigger] s[i]) by {
            if i > 0 {
                assert(s[i] == r[i - 1]);
            }
        }
        assert(r.skip(rewrite::space_len(r)) =~= s.skip(rewrite::space_len(s)));
    } else {
        assert(s.skip(0) =~= s);
    }
}

pub(crate) proof fn lemma_space_is(s: Seq<char>, n: int)
    requires
        0 <= n <= s.len(),
        forall|i: int| 0 <= i < n ==> text::white_space(#[trigger] s[i]),
        n < s.len() ==> !text::white_space(s[n]),
    ensures
        rewrite::space_len(s) == n,
{
    lemma_space(s);
    let m = rewrite::space_len(s);
    if m < n {
        assert(text::white_space(s[m]));
    } else if n < m {
        assert(text::white_space(s[n]));
    }
}

/// The first line of a text, taken apart.
pub(crate) proof fn lemma_line_parts(t: Seq<char>) -> (eol: Seq<char>)
    requires
        t.len() > 0,
    ensures
        ({
            let body = text::first_body(t);
            let n = text::line_len(t);
            &&& t == body + eol + t.skip(n)
            &&& n == body.len() + eol.len()
            &&& forall|i: int| 0 <= i < body.len() ==> #[trigger] body[i] != '\n'
            &&& {
                ||| eol == seq!['\n'] && (body.len() > 0 ==> body.last() != '\r')
                ||| eol == seq!['\r', '\n']
                ||| eol == Seq::<char>::empty() && n == t.len() && body == t
            }
        }),
{
    text::lemma_line(t);
    let n = text::line_len(t);
    let line = t.subrange(0, n);
    let m = text::body_len(line);
    let eol = t.subrange(m, n);
    let body = text::first_body(t);
    assert(t =~= body + eol + t.skip(n));
    assert(line.last() == t[n - 1]);
    if m == n {
        assert(eol =~= Seq::<char>::empty());
        assert(n == t.len());
        assert(body =~= t);
    } else if m == n - 1 {
        assert(eol =~= seq!['\n']);
        if body.len() > 0 {
            assert(line[n - 2] == body.last());
        }
    } else {
        assert(line[n - 2] == t[n - 2]);
        assert(eol =~= seq!['\r', '\n']);
    }
    eol
}

// ---------------------------------------------------------------------------
// Lines that give a key a value
// ---------------------------------------------------------------------------
/// Whether `body` is `key`, `i` characters in, with an `=` behind `g` characters
/// of white space.
pub(crate) open spec fn assigns(body: Seq<char>, key: Seq<char>, i: int, g: int) -> bool {
    let k = key.len();
    &&& 0 <= i && 0 <= g && i + k + g < body.len()
    &&& forall|j: int| 0 <= j < i ==> text::white_space(#[trigger] body[j])
    &&& body.subrange(i, i + k) == key
    &&& forall|j: int| i + k <= j < i + k + g ==> text::white_space(#[trigger] body[j])
    &&& body[i + k + g] == '='
}

pub(crate) proof fn lemma_bare(key: Seq<char>)
    requires
        bare_key(key),
    ensures
        forall|i: int|
            0 <= i < key.len() ==> !text::white_space(#[trigger] key[i]) && key[i] != '=' && key[i] != '['
                && key[i] != '\n' && key[i] != '\r',
{
    assert forall|i: int| 0 <= i < key.len() implies !text::white_space(#[trigger] key[i]) && key[i]
        != '=' && key[i] != '[' && key[i] != '\n' && key[i] != '\r' by {
        assert(bare_char(key[i]));
    }
}

pub(crate) proof fn lemma_span_of(body: Seq<char>, key: Seq<char>, i: int, g: int)
    requires
        bare_key(key),
        assigns(body, key, i, g),
    ensures
        !rewrite::is_header(body),
        ({
            let from = i + key.len() + g + 1;
            let start = from + rewrite::space_len(body.skip(from));
            &&& rewrite::value_span(body, key) == Some((start, start + rewrite::value_extent(body.skip(start))))
            &&& from <= start <= body.len()
        }),
{
    lemma_bare(key);
    let k = key.len() as int;
    assert(body[i] == body.subrange(i, i + k)[0]);
    lemma_space_is(body, i);
    lemma_space(body);
    let at_key = body.skip(i);
    assert(at_key.subrange(0, k) =~= body.subrange(i, i + k));
    let after_key = at_key.skip(k);
    assert forall|j: int| 0 <= j < g implies text::white_space(#[trigger] after_key[j]) by {
        assert(after_key[j] == body[i + k + j]);
    }
    assert(after_key[g] == body[i + k + g]);
    lemma_space_is(after_key, g);
    let after_eq = after_key.skip(g + 1);
    let from = i + k + g + 1;
    assert(after_eq =~= body.skip(from));
    lemma_space(after_eq);
    let space = rewrite::space_len(after_eq);
    assert(after_eq.skip(space) =~= body.skip(from + space));
}

pub(crate) proof fn lemma_span_some(body: Seq<char>, key: Seq<char>) -> (r: (int, int))
    requires
        bare_key(key),
        rewrite::value_span(body, key) is Some,
    ensures
        assigns(body, key, r.0, r.1),
{
    lemma_bare(key);
    let k = key.len() as int;
    lemma_space(body);
    let i = rewrite::space_len(body);
    let at_key = body.skip(i);
    assert(body.subrange(i, i + k) =~= at_key.subrange(0, k));
    let after_key = at_key.skip(k);
    lemma_space(after_key);
    let g = rewrite::space_len(after_key);
    assert forall|j: int| i + k <= j < i + k + g implies text::white_space(#[trigger] body[j]) by {
        assert(body[j] == after_key[j - i - k]);
    }
    assert(body[i + k + g] == after_key[g]);
    (i, g)
}

/// A line that gives one key a value gives no other key one.
pub(crate) proof fn lemma_one_key(body: Seq<char>, key: Seq<char>, other: Seq<char>, i: int, g: int)
    requires
        bare_key(key),
        bare_key(other),
        key != other,
        assigns(body, key, i, g),
    ensures
        rewrite::value_span(body, other) is None,
{
    if rewrite::value_span(body, other) is Some {
        let (j, h) = lemma_span_some(body, other);
        lemma_bare(key);
        lemma_bare(other);
        let k = key.len() as int;
        let o = other.len() as int;
        assert(body[i] == body.subrange(i, i + k)[0]);
        assert(body[j] == body.subrange(j, j + o)[0]);
        assert(i == j) by {
            if i < j {
                assert(text::white_space(body[i]));
            } else if j < i {
                assert(text::white_space(body[j]));
            }
        }
        if k < o {
            assert(body[i + k] == body.subrange(j, j + o)[k]);
            assert(g > 0 ==> text::white_space(body[i + k]));
        } else if o < k {
            assert(body[j + o] == body.subrange(i, i + k)[o]);
            assert(h > 0 ==> text::white_space(body[j + o]));
        }
        assert(key =~= other);
    }
}

/// White space behind a line does not make it one that gives a key a value.
proof fn lemma_cut(body: Seq<char>, key: Seq<char>)
    requires
        bare_key(key),
        body.len() > 0,
        !rewrite::is_header(body),
        rewrite::value_span(body, key) is None,
    ensures
        !rewrite::is_header(body.drop_last()),
        rewrite::value_span(body.drop_last(), key) is None,
{
    let cut = body.drop_last();
    if rewrite::value_span(cut, key) is Some {
        let (i, g) = lemma_span_some(cut, key);
        assert(cut.subrange(i, i + key.len()) =~= body.subrange(i, i + key.len()));
        assert forall|j: int| 0 <= j < i implies text::white_space(#[trigger] body[j]) by {
            assert(cut[j] == body[j]);
        }
        assert forall|j: int|
            i + key.len() <= j < i + key.len() + g implies text::white_space(#[trigger] body[j]) by {
            assert(cut[j] == body[j]);
        }
        assert(assigns(body, key, i, g));
        lemma_span_of(body, key, i, g);
    }
    if rewrite::is_header(cut) {
        lemma_space(cut);
        let n = rewrite::space_len(cut);
        assert forall|j: int| 0 <= j < n implies text::white_space(#[trigger] body[j]) by {
            assert(cut[j] == body[j]);
        }
        assert(body[n] == cut[n]);
        lemma_space_is(body, n);
        lemma_space(body);
    }
}

// ---------------------------------------------------------------------------
// Quoted strings
// ---------------------------------------------------------------------------
pub(crate) proof fn lemma_escape(c: char)
    ensures
        forall|i: int| 0 <= i < rewrite::escaped(c).len() ==> !rewrite::control(#[trigger] rewrite::escaped(c)[i]),
        ({
            let e = rewrite::escaped(c);
            ||| e.len() == 1 && e[0] == c && c != '"' && c != '\\' && !rewrite::control(c)
            ||| e.len() == 2 && e[0] == '\\' && e[1] != 'u'
            ||| {
                &&& e.len() == 6
                &&& e[0] == '\\'
                &&& e[1] == 'u'
                &&& forall|i: int| 2 <= i < 6 ==> #[trigger] e[i] != '\\' && e[i] != '"'
                &&& rewrite::escaped_char(e[2], e[3], e[4], e[5]) == Some(c)
            }
        }),
{
    if rewrite::escaped(c).len() == 6 {
        let n = c as int;
        assert(0 <= n / 16 < 16 && 0 <= n % 16 < 16);
        lemma_hex(n / 16);
        lemma_hex(n % 16);
        assert(n / 16 * 16 + n % 16 == n);
    }
}

proof fn lemma_escaped_plain(s: Seq<char>)
    ensures
        forall|i: int| 0 <= i < rewrite::escaped_all(s).len() ==> !rewrite::control(#[trigger] rewrite::escaped_all(s)[i]),
    decreases s.len(),
{
    if s.len() > 0 {
        lemma_escaped_plain(s.drop_first());
        lemma_escape(s[0]);
        let head = rewrite::escaped(s[0]);
        let rest = rewrite::escaped_all(s.drop_first());
        assert forall|i: int| 0 <= i < (head + rest).len() implies !rewrite::control(
            #[trigger] (head + rest)[i],
        ) by {
            if i >= head.len() {
                assert((head + rest)[i] == rest[i - head.len()]);
            }
        }
    }
}

/// No line ends inside a quoted string.
pub(crate) proof fn lemma_quoted_plain(s: Seq<char>)
    ensures
        forall|i: int| 0 <= i < rewrite::quoted(s).len() ==> !rewrite::control(#[trigger] rewrite::quoted(s)[i]),
        rewrite::quoted(s).len() >= 2,
        rewrite::quoted(s)[0] == '"',
        rewrite::quoted(s).last() == '"',
{
    lemma_escaped_plain(s);
    let inner = rewrite::escaped_all(s);
    assert forall|i: int| 0 <= i < rewrite::quoted(s).len() implies !rewrite::control(#[trigger] rewrite::quoted(s)[i]) by {
        if 0 < i <= inner.len() {
            assert(rewrite::quoted(s)[i] == inner[i - 1]);
        }
    }
}

proof fn lemma_basic_end(v: Seq<char>, s: Seq<char>, i: int)
    requires
        0 <= i,
        i + rewrite::escaped_all(s).len() < v.len(),
        v.subrange(i, i + rewrite::escaped_all(s).len()) == rewrite::escaped_all(s),
        v[i + rewrite::escaped_all(s).len()] == '"',
    ensures
        rewrite::basic_end(v, i) == i + rewrite::escaped_all(s).len() + 1,
    decreases s.len(),
{
    if s.len() > 0 {
        let all = rewrite::escaped_all(s);
        let head = rewrite::escaped(s[0]);
        let rest = rewrite::escaped_all(s.drop_first());
        let h = head.len() as int;
        assert(all == head + rest);
        assert forall|j: int| 0 <= j < h implies v[i + j] == #[trigger] head[j] by {
            assert(v.subrange(i, i + all.len())[j] == all[j]);
        }
        assert(v.subrange(i + h, i + h + rest.len()) =~= rest) by {
            assert forall|j: int| 0 <= j < rest.len() implies v[i + h + j] == #[trigger] rest[j] by {
                assert(v.subrange(i, i + all.len())[h + j] == all[h + j]);
            }
        }
        lemma_basic_end(v, s.drop_first(), i + h);
        lemma_escape(s[0]);
        assert(v[i] == head[0]);
        if h == 6 {
            assert(v[i + 2] == head[2] && v[i + 3] == head[3] && v[i + 4] == head[4] && v[i + 5]
                == head[5]);
            assert(rewrite::basic_end(v, i + 5) == rewrite::basic_end(v, i + 6));
            assert(rewrite::basic_end(v, i + 4) == rewrite::basic_end(v, i + 5));
            assert(rewrite::basic_end(v, i + 3) == rewrite::basic_end(v, i + 4));
            assert(rewrite::basic_end(v, i + 2) == rewrite::basic_end(v, i + 3));
        }
    }
}

/// A quoted string ends at its closing quote, whatever follows, but that an empty one
/// with a third quote behind it would open another kind of string.
pub(crate) proof fn lemma_quoted_extent(s: Seq<char>, rest: Seq<char>)
    requires
        s.len() > 0 || rest.len() == 0 || rest[0] != '"',
    ensures
        rewrite::value_extent(rewrite::quoted(s) + rest) == rewrite::quoted(s).len(),
{
    let v = rewrite::quoted(s) + rest;
    let inner = rewrite::escaped_all(s);
    assert(v.subrange(1, 1 + inner.len() as int) =~= inner);
    lemma_basic_end(v, s, 1);
    if s.len() > 0 {
        lemma_escape(s[0]);
        assert(inner[0] == rewrite::escaped(s[0])[0]);
        assert(v[1] == inner[0]);
    } else {
        assert(inner.len() == 0);
        assert(rest.len() > 0 ==> v[2] == rest[0]);
    }
}

proof fn lemma_unescaped(s: Seq<char>)
    ensures
        rewrite::unescaped(rewrite::escaped_all(s)) == Some(s),
    decreases s.len(),
{
    if s.len() == 0 {
        assert(rewrite::escaped_all(s) =~= Seq::<char>::empty());
        assert(s =~= Seq::<char>::empty());
    } else {
        let c = s[0];
        let head = rewrite::escaped(c);
        let rest = rewrite::escaped_all(s.drop_first());
        let all = head + rest;
        lemma_unescaped(s.drop_first());
        assert(all.skip(head.len() as int) =~= rest);
        assert(seq![c] + s.drop_first() =~= s);
        lemma_escape(c);
        assert(forall|i: int| 0 <= i < head.len() ==> all[i] == #[trigger] head[i]);
    }
}

proof fn lemma_hex(n: int)
    requires
        0 <= n < 16,
    ensures
        rewrite::hex_value(rewrite::hex_char(n)) == Some(n),
        !rewrite::control(rewrite::hex_char(n)),
        rewrite::hex_char(n) != '\\',
        rewrite::hex_char(n) != '"',
{
}

/// A quoted string is read back as the text that was quoted.
pub proof fn law_quoting_is_read_back(s: Seq<char>)
    ensures
        rewrite::unquoted(rewrite::quoted(s)) == Some(s),
{
    lemma_quoted_plain(s);
    lemma_unescaped(s);
    assert(rewrite::quoted(s).subrange(1, rewrite::quoted(s).len() - 1) =~= rewrite::escaped_all(s));
}

// ---------------------------------------------------------------------------
// The changed text
// ---------------------------------------------------------------------------
/// What comes before the value in the changed text.
pub(crate) open spec fn before(t: Seq<char>, place: Place, key: Seq<char>, eol: Seq<char>) -> Seq<char> {
    match place {
        Place::Value(a, b) => t.subrange(0, a),
        Place::End(a) => t.subrange(0, a) + (if a > 0 && t[a - 1] != '\n' {
            eol
        } else {
            Seq::empty()
        }) + key + seq![' ', '=', ' '],
    }
}

/// What comes behind the value in the changed text.
pub(crate) open spec fn behind(t: Seq<char>, place: Place, eol: Seq<char>) -> Seq<char> {
    match place {
        Place::Value(a, b) => t.skip(b),
        Place::End(a) => eol + t.skip(a),
    }
}

pub(crate) proof fn lemma_locate_bounds(t: Seq<char>, key: Seq<char>)
    requires
        bare_key(key),
    ensures
        match rewrite::locate(t, key) {
            Place::Value(a, b) => 0 <= a <= b <= t.len(),
            Place::End(a) => 0 <= a <= t.len(),
        },
    decreases t.len(),
{
    if t.len() > 0 && !rewrite::is_header(text::first_body(t)) {
        text::lemma_line(t);
        if rewrite::value_span(text::first_body(t), key) is Some {
            let (i, g) = lemma_span_some(text::first_body(t), key);
            lemma_span_of(text::first_body(t), key, i, g);
            let from = i + key.len() + g + 1;
            let start = from + rewrite::space_len(text::first_body(t).skip(from));
            lemma_extent(text::first_body(t).skip(start));
        } else {
            lemma_locate_bounds(t.skip(text::line_len(t)), key);
        }
    }
}

pub(crate) proof fn lemma_extent(v: Seq<char>)
    ensures
        0 <= rewrite::value_extent(v) <= v.len(),
{
    if rewrite::triple(v, '"', 0) {
        lemma_triple_bound(v, '"', 3);
    } else if rewrite::triple(v, '\'', 0) {
        lemma_triple_bound(v, '\'', 3);
    } else if v.len() > 0 && v[0] == '"' {
        lemma_basic_bound(v, 1);
    } else if v.len() > 0 && v[0] == '\'' {
        text::lemma_first_at(v, '\'', 1);
    } else {
        lemma_bare_bound(v, 0);
    }
}

proof fn lemma_triple_bound(v: Seq<char>, q: char, i: int)
    requires
        0 <= i,
    ensures
        0 <= rewrite::triple_close(v, q, i) <= v.len(),
        rewrite::triple_close(v, q, i) < v.len() ==> i <= rewrite::triple_close(v, q, i)
            && rewrite::triple(v, q, rewrite::triple_close(v, q, i)),
    decreases v.len() + 1 - i,
{
    if i < v.len() {
        if q == '"' && v[i] == '\\' {
            lemma_triple_bound(v, q, i + 2);
        } else if !rewrite::triple(v, q, i) {
            lemma_triple_bound(v, q, i + 1);
        }
    }
}

proof fn lemma_basic_bound(v: Seq<char>, i: int)
    requires
        0 <= i,
    ensures
        0 <= rewrite::basic_end(v, i) <= v.len(),
    decreases v.len() + 1 - i,
{
    if i < v.len() {
        if v[i] == '\\' {
            lemma_basic_bound(v, i + 2);
        } else if v[i] != '"' {
            lemma_basic_bound(v, i + 1);
        }
    }
}

proof fn lemma_bare_bound(v: Seq<char>, i: int)
    requires
        0 <= i <= v.len(),
    ensures
        i <= crate::config::rewrite::bare_end(v, i) <= v.len(),
    decreases v.len() - i,
{
    if i < v.len() && !text::white_space(v[i]) && v[i] != '#' {
        lemma_bare_bound(v, i + 1);
    }
}

/// The line that is added, and whatever follows it.
#[verifier::rlimit(60)]
proof fn lemma_added_line(key: Seq<char>, s: Seq<char>, eol: Seq<char>, rest: Seq<char>)
    requires
        bare_key(key),
        eol == seq!['\n'] || eol == seq!['\r', '\n'],
    ensures
        ({
            let t = key + seq![' ', '=', ' '] + rewrite::quoted(s) + (eol + rest);
            let a = key.len() + 3;
            &&& t == rewrite::setting_line(key, rewrite::quoted(s), eol) + rest
            &&& rewrite::locate(t, key) == Place::Value(a as int, (a + rewrite::quoted(s).len()) as int)
            &&& forall|other: Seq<char>|
                #![trigger rewrite::locate(t, other)]
                bare_key(other) && other != key ==> rewrite::locate(t, other) == rewrite::locate(rest, other).behind(
                    rewrite::setting_line(key, rewrite::quoted(s), eol).len() as int,
                )
        }),
{
    lemma_bare(key);
    lemma_quoted_plain(s);
    let k = key.len() as int;
    let body = key + seq![' ', '=', ' '] + rewrite::quoted(s);
    let t = key + seq![' ', '=', ' '] + rewrite::quoted(s) + (eol + rest);
    assert(t =~= body + eol + rest);
    assert(t =~= rewrite::setting_line(key, rewrite::quoted(s), eol) + rest);
    assert forall|i: int| 0 <= i < body.len() implies #[trigger] body[i] != '\n' by {
        if i < k {
            assert(body[i] == key[i]);
        } else if i >= k + 3 {
            assert(body[i] == rewrite::quoted(s)[i - k - 3]);
        }
    }
    assert(body.last() == rewrite::quoted(s).last());
    text::lemma_line_then(body, eol, rest);
    assert(body.subrange(0, k) =~= key);
    assert(assigns(body, key, 0, 1));
    lemma_span_of(body, key, 0, 1);
    let tail = body.skip(k + 2);
    assert(tail =~= seq![' '] + rewrite::quoted(s));
    lemma_space_is(tail, 1);
    assert(body.skip(k + 3) =~= rewrite::quoted(s) + Seq::<char>::empty());
    lemma_quoted_extent(s, Seq::empty());
    assert forall|other: Seq<char>| bare_key(other) && other != key implies #[trigger] rewrite::locate(
        t,
        other,
    ) == rewrite::locate(rest, other).behind(rewrite::setting_line(key, rewrite::quoted(s), eol).len() as int) by {
        lemma_one_key(body, key, other, 0, 1);
    }
}

/// Whether a quote stands right behind the value of `key`. No file that is well formed
/// has one there.
pub open spec fn quote_behind(t: Seq<char>, key: Seq<char>) -> bool {
    match rewrite::locate(t, key) {
        Place::Value(a, b) => b < t.len() && t[b] == '"',
        Place::End(a) => false,
    }
}

/// Whether the value that is written into `t` is the one that is found there.
spec fn found(t: Seq<char>, key: Seq<char>, s: Seq<char>, eol: Seq<char>) -> bool {
    let p = before(t, rewrite::locate(t, key), key, eol);
    let q = behind(t, rewrite::locate(t, key), eol);
    &&& rewrite::spliced(t, rewrite::locate(t, key), key, rewrite::quoted(s), eol) == p + rewrite::quoted(s) + q
    &&& rewrite::locate(p + rewrite::quoted(s) + q, key) == Place::Value(
        p.len() as int,
        (p.len() + rewrite::quoted(s).len()) as int,
    )
}

/// What surrounds the value, with a closed line `head` put in front of the text.
pub(crate) proof fn lemma_frame_later(
    head: Seq<char>,
    rest: Seq<char>,
    place: Place,
    key: Seq<char>,
    eol: Seq<char>,
)
    requires
        head.len() > 0,
        head.last() == '\n',
        match place {
            Place::Value(a, b) => 0 <= a <= b <= rest.len(),
            Place::End(a) => 0 <= a <= rest.len(),
        },
    ensures
        before(head + rest, place.behind(head.len() as int), key, eol) == head + before(
            rest,
            place,
            key,
            eol,
        ),
        behind(head + rest, place.behind(head.len() as int), eol) == behind(rest, place, eol),
{
    let t = head + rest;
    let n = head.len() as int;
    match place {
        Place::Value(a, b) => {
            assert(t.subrange(0, a + n) =~= head + rest.subrange(0, a));
            assert(t.skip(b + n) =~= rest.skip(b));
        },
        Place::End(a) => {
            assert(t.subrange(0, a + n) =~= head + rest.subrange(0, a));
            assert(t.skip(a + n) =~= rest.skip(a));
            if a > 0 {
                assert(t[a + n - 1] == rest[a - 1]);
            } else {
                assert(t[n - 1] == head.last());
            }
            assert(before(t, place.behind(n), key, eol) =~= head + before(rest, place, key, eol));
        },
    }
}

/// The changed text is what surrounds the value, and the value.
pub(crate) proof fn lemma_frame(t: Seq<char>, place: Place, key: Seq<char>, q: Seq<char>, eol: Seq<char>)
    ensures
        rewrite::spliced(t, place, key, q, eol) == before(t, place, key, eol) + q + behind(t, place, eol),
{
    assert(rewrite::spliced(t, place, key, q, eol) =~= before(t, place, key, eol) + q + behind(
        t,
        place,
        eol,
    ));
}

/// A line that does not concern `key` is passed over.
proof fn lemma_passed_over(body: Seq<char>, end: Seq<char>, rest: Seq<char>, key: Seq<char>)
    requires
        forall|i: int| 0 <= i < body.len() ==> #[trigger] body[i] != '\n',
        end == seq!['\n'] && (body.len() > 0 ==> body.last() != '\r') || end == seq!['\r', '\n'],
        !rewrite::is_header(body),
        rewrite::value_span(body, key) is None,
    ensures
        rewrite::locate(body + end + rest, key) == rewrite::locate(rest, key).behind((body.len() + end.len()) as int),
{
    text::lemma_line_then(body, end, rest);
}

/// It is found behind a line that stays as it is.
proof fn lemma_found_later(
    t: Seq<char>,
    key: Seq<char>,
    s: Seq<char>,
    eol: Seq<char>,
    body: Seq<char>,
    end: Seq<char>,
    rest: Seq<char>,
)
    requires
        bare_key(key),
        t == body + end + rest,
        forall|i: int| 0 <= i < body.len() ==> #[trigger] body[i] != '\n',
        end == seq!['\n'] && (body.len() > 0 ==> body.last() != '\r') || end == seq!['\r', '\n'],
        !rewrite::is_header(body),
        rewrite::value_span(body, key) is None,
        found(rest, key, s, eol),
    ensures
        found(t, key, s, eol),
{
    let n = (body.len() + end.len()) as int;
    let head = body + end;
    let place = rewrite::locate(rest, key);
    let p = before(rest, place, key, eol);
    let q = behind(rest, place, eol);
    let all = p + rewrite::quoted(s) + q;
    assert(rewrite::locate(t, key) == place.behind(n)) by {
        lemma_passed_over(body, end, rest, key);
    }
    assert(before(t, place.behind(n), key, eol) == head + p && behind(t, place.behind(n), eol) == q)
        by {
        lemma_locate_bounds(rest, key);
        assert(head.last() == '\n');
        lemma_frame_later(head, rest, place, key, eol);
    }
    lemma_frame(t, place.behind(n), key, rewrite::quoted(s), eol);
    assert(head + p + rewrite::quoted(s) + q == head + all) by {
        assert(head + p + rewrite::quoted(s) + q =~= head + all);
    }
    assert(rewrite::locate(head + all, key) == rewrite::locate(all, key).behind(n)) by {
        lemma_passed_over(body, end, all, key);
    }
}

/// It is found behind a last line that was left open.
proof fn lemma_found_last(t: Seq<char>, key: Seq<char>, s: Seq<char>, eol: Seq<char>)
    requires
        bare_key(key),
        eol == seq!['\n'] || eol == seq!['\r', '\n'],
        t.len() > 0,
        forall|i: int| 0 <= i < t.len() ==> #[trigger] t[i] != '\n',
        !rewrite::is_header(t),
        rewrite::value_span(t, key) is None,
    ensures
        found(t, key, s, eol),
{
    let n = t.len() as int;
    let place = rewrite::locate(t, key);
    assert(place == Place::End(n)) by {
        lemma_unclosed(t);
        assert(t.skip(n) =~= Seq::<char>::empty());
        assert(rewrite::locate(t.skip(n), key) == Place::End(0));
    }
    assert(t[n - 1] != '\n');
    let p = before(t, place, key, eol);
    let q = behind(t, place, eol);
    let opening = key + seq![' ', '=', ' '];
    let value = rewrite::quoted(s);
    assert(p == t + eol + opening) by {
        assert(t.subrange(0, n) =~= t);
        assert(p =~= t + eol + opening);
    }
    assert(q == eol + Seq::<char>::empty()) by {
        assert(t.skip(n) =~= Seq::<char>::empty());
    }
    lemma_frame(t, place, key, value, eol);
    let added = opening + value + q;
    lemma_added_line(key, s, eol, Seq::empty());
    assert(p + value + q == t + eol + added) by {
        assert(p + value + q =~= t + eol + added);
    }
    lemma_closed_line(t, eol, added, key);
    assert((t.len() + eol.len() + opening.len()) == p.len());
}

/// It is found where a line is added in front of the text.
proof fn lemma_found_first(t: Seq<char>, key: Seq<char>, s: Seq<char>, eol: Seq<char>)
    requires
        bare_key(key),
        eol == seq!['\n'] || eol == seq!['\r', '\n'],
        rewrite::locate(t, key) == Place::End(0),
    ensures
        found(t, key, s, eol),
{
    let place = rewrite::locate(t, key);
    let p = before(t, place, key, eol);
    let q = behind(t, place, eol);
    assert(t.subrange(0, 0) =~= Seq::<char>::empty());
    assert(t.skip(0) =~= t);
    assert(p =~= key + seq![' ', '=', ' ']);
    assert(q =~= eol + t);
    assert(rewrite::spliced(t, place, key, rewrite::quoted(s), eol) =~= p + rewrite::quoted(s) + q);
    lemma_added_line(key, s, eol, t);
}

/// The value that was written is the one that is found, in whatever text.
proof fn lemma_found(t: Seq<char>, key: Seq<char>, s: Seq<char>, eol: Seq<char>)
    requires
        bare_key(key),
        eol == seq!['\n'] || eol == seq!['\r', '\n'],
        s.len() > 0 || !quote_behind(t, key),
    ensures
        found(t, key, s, eol),
    decreases t.len(),
{
    if t.len() == 0 || rewrite::is_header(text::first_body(t)) {
        lemma_found_first(t, key, s, eol);
    } else {
        let end = lemma_line_parts(t);
        let body = text::first_body(t);
        let rest = t.skip(text::line_len(t));
        text::lemma_line(t);
        if rewrite::value_span(body, key) is Some {
            lemma_found_here(t, key, s, end);
        } else if end.len() > 0 {
            lemma_locate_bounds(rest, key);
            match rewrite::locate(rest, key) {
                Place::Value(a, b) => {
                    if b < rest.len() {
                        assert(rest[b] == t[b + text::line_len(t)]);
                    }
                },
                Place::End(_) => {},
            }
            lemma_found(rest, key, s, eol);
            lemma_found_later(t, key, s, eol, body, end, rest);
        } else {
            lemma_found_last(t, key, s, eol);
        }
    }
}

/// Closing the last line of a text does not turn it into one that gives `key` a
/// value.
proof fn lemma_closed_line(t: Seq<char>, eol: Seq<char>, rest: Seq<char>, key: Seq<char>)
    requires
        bare_key(key),
        eol == seq!['\n'] || eol == seq!['\r', '\n'],
        t.len() > 0,
        forall|i: int| 0 <= i < t.len() ==> #[trigger] t[i] != '\n',
        !rewrite::is_header(t),
        rewrite::value_span(t, key) is None,
    ensures
        rewrite::locate(t + eol + rest, key) == rewrite::locate(rest, key).behind((t.len() + eol.len()) as int),
{
    if eol.len() == 1 && t.last() == '\r' {
        let cut = t.drop_last();
        let crlf = seq!['\r', '\n'];
        assert(t + eol + rest =~= cut + crlf + rest);
        lemma_cut(t, key);
        text::lemma_line_then(cut, crlf, rest);
    } else {
        text::lemma_line_then(t, eol, rest);
    }
}

#[verifier::rlimit(60)]
proof fn lemma_found_here(t: Seq<char>, key: Seq<char>, s: Seq<char>, end: Seq<char>)
    requires
        bare_key(key),
        t.len() > 0,
        !rewrite::is_header(text::first_body(t)),
        rewrite::value_span(text::first_body(t), key) is Some,
        ({
            let body = text::first_body(t);
            let n = text::line_len(t);
            &&& t == body + end + t.skip(n)
            &&& n == body.len() + end.len()
            &&& forall|i: int| 0 <= i < body.len() ==> #[trigger] body[i] != '\n'
            &&& {
                ||| end == seq!['\n'] && (body.len() > 0 ==> body.last() != '\r')
                ||| end == seq!['\r', '\n']
                ||| end == Seq::<char>::empty() && n == t.len() && body == t
            }
        }),
    ensures
        ({
            let span = rewrite::value_span(text::first_body(t), key)->0;
            let all = t.subrange(0, span.0) + rewrite::quoted(s) + t.skip(span.1);
            let m = text::first_body(t).len() - (span.1 - span.0) + rewrite::quoted(s).len() + end.len();
            &&& 0 <= span.0 <= span.1 <= text::first_body(t).len()
            &&& s.len() > 0 || !quote_behind(t, key) ==> rewrite::locate(all, key) == Place::Value(
                span.0,
                span.0 + rewrite::quoted(s).len(),
            )
            &&& forall|other: Seq<char>|
                #![trigger rewrite::locate(all, other)]
                bare_key(other) && other != key ==> rewrite::locate(all, other) == rewrite::locate(
                    t.skip(text::line_len(t)),
                    other,
                ).behind(m)
            &&& all.skip(m) == t.skip(text::line_len(t))
        }),
{
    let body = text::first_body(t);
    let n = text::line_len(t);
    let k = key.len() as int;
    let rest = t.skip(n);
    text::lemma_line(t);
    let (i, g) = lemma_span_some(body, key);
    lemma_span_of(body, key, i, g);
    lemma_bare(key);
    lemma_quoted_plain(s);
    let span = rewrite::value_span(body, key)->0;
    let a = span.0;
    let b = span.1;
    lemma_extent(body.skip(a));
    let from = i + k + g + 1;
    lemma_space(body.skip(from));
    let all = t.subrange(0, a) + rewrite::quoted(s) + t.skip(b);
    let new = body.subrange(0, a) + rewrite::quoted(s) + body.skip(b);
    assert(all =~= new + end + rest);
    assert forall|j: int| 0 <= j < new.len() implies #[trigger] new[j] != '\n' by {
        if j < a {
            assert(new[j] == body[j]);
        } else if j < a + rewrite::quoted(s).len() {
            assert(new[j] == rewrite::quoted(s)[j - a]);
        } else {
            assert(new[j] == body[j - rewrite::quoted(s).len() - a + b]);
        }
    }
    assert(new.last() == (if b < body.len() {
        body.last()
    } else {
        rewrite::quoted(s).last()
    }));
    assert forall|j: int| 0 <= j < a implies #[trigger] new[j] == body[j] by {}
    assert(new.subrange(i, i + k) =~= body.subrange(i, i + k));
    assert(assigns(new, key, i, g));
    lemma_span_of(new, key, i, g);
    let tail = new.skip(from);
    assert forall|j: int| 0 <= j < a - from implies text::white_space(#[trigger] tail[j]) by {
        assert(tail[j] == body.skip(from)[j]);
    }
    assert(tail[a - from] == rewrite::quoted(s)[0]);
    lemma_space_is(tail, a - from);
    assert(new.skip(a) =~= rewrite::quoted(s) + body.skip(b));
    assert(b < body.len() ==> body.skip(b)[0] == t[b]);
    if s.len() > 0 || !quote_behind(t, key) {
        lemma_quoted_extent(s, body.skip(b));
    }
    if end.len() > 0 {
        text::lemma_line_then(new, end, rest);
    } else {
        assert(rest =~= Seq::<char>::empty());
        assert(all =~= new);
        lemma_unclosed(new);
    }
    let m = new.len() + end.len();
    assert(all.skip(m as int) =~= rest);
    assert forall|other: Seq<char>| bare_key(other) && other != key implies #[trigger] rewrite::locate(
        all,
        other,
    ) == rewrite::locate(rest, other).behind(m as int) by {
        lemma_one_key(new, key, other, i, g);
    }
}

/// A text with no line ending is one line.
pub(crate) proof fn lemma_unclosed(t: Seq<char>)
    requires
        forall|i: int| 0 <= i < t.len() ==> #[trigger] t[i] != '\n',
    ensures
        text::line_len(t) == t.len(),
        text::first_body(t) == t,
{
    text::lemma_first_at_is(t, '\n', t.len() as int);
    assert(t.subrange(0, t.len() as int) =~= t);
    assert(text::first_body(t) =~= t);
}

/// What is saved is what is read: once a setting has been set, its line gives it the
/// value that was set.
pub proof fn law_a_saved_setting_is_read_back(t: Seq<char>, key: Seq<char>, value: Seq<char>)
    requires
        bare_key(key),
        value.len() > 0 || !quote_behind(t, key),
    ensures
        rewrite::setting_of(rewrite::updated(t, key, value), key) == Some(rewrite::quoted(value)),
        rewrite::unquoted(rewrite::quoted(value)) == Some(value),
{
    let eol = rewrite::line_ending(t);
    lemma_found(t, key, value, eol);
    law_quoting_is_read_back(value);
    let p = before(t, rewrite::locate(t, key), key, eol);
    let q = behind(t, rewrite::locate(t, key), eol);
    assert((p + rewrite::quoted(value) + q).subrange(
        p.len() as int,
        (p.len() + rewrite::quoted(value).len()) as int,
    ) =~= rewrite::quoted(value));
}

/// Setting a key twice is setting it to the second value.
pub proof fn law_the_last_value_wins(
    t: Seq<char>,
    key: Seq<char>,
    first: Seq<char>,
    second: Seq<char>,
)
    requires
        bare_key(key),
        first.len() > 0 || !quote_behind(t, key),
    ensures
        rewrite::updated(rewrite::updated(t, key, first), key, second) == rewrite::updated(t, key, second),
{
    let eol = rewrite::line_ending(t);
    lemma_found(t, key, first, eol);
    lemma_frame(t, rewrite::locate(t, key), key, rewrite::quoted(second), eol);
    let p = before(t, rewrite::locate(t, key), key, eol);
    let q = behind(t, rewrite::locate(t, key), eol);
    let once = p + rewrite::quoted(first) + q;
    assert(once.subrange(0, p.len() as int) =~= p);
    assert(once.skip((p.len() + rewrite::quoted(first).len()) as int) =~= q);
}

/// Nothing but the setting changes: the text is the one before, with one stretch
/// replaced, and where the setting had no value nothing is taken out.
pub proof fn law_the_rest_of_the_file_stays(t: Seq<char>, key: Seq<char>, value: Seq<char>)
    requires
        bare_key(key),
    ensures
        exists|a: int, b: int, new: Seq<char>|
            #![trigger t.subrange(0, a) + new + t.skip(b)]
            {
                &&& 0 <= a <= b <= t.len()
                &&& rewrite::updated(t, key, value) == t.subrange(0, a) + new + t.skip(b)
                &&& rewrite::setting_of(t, key) is None ==> a == b
                &&& rewrite::setting_of(t, key) is Some ==> rewrite::setting_of(t, key) == Some(t.subrange(a, b))
                    && new == rewrite::quoted(value)
            },
{
    lemma_locate_bounds(t, key);
    match rewrite::locate(t, key) {
        Place::Value(a, b) => {
            assert(rewrite::updated(t, key, value) == t.subrange(0, a) + rewrite::quoted(value) + t.skip(b));
        },
        Place::End(a) => {
            let eol = rewrite::line_ending(t);
            let new = (if a > 0 && t[a - 1] != '\n' {
                eol
            } else {
                Seq::empty()
            }) + rewrite::setting_line(key, rewrite::quoted(value), eol);
            assert(rewrite::updated(t, key, value) =~= t.subrange(0, a) + new + t.skip(a));
        },
    }
}

#[verifier::rlimit(60)]
proof fn lemma_others_stay(
    t: Seq<char>,
    key: Seq<char>,
    other: Seq<char>,
    s: Seq<char>,
    eol: Seq<char>,
)
    requires
        bare_key(key),
        bare_key(other),
        key != other,
        eol == seq!['\n'] || eol == seq!['\r', '\n'],
        t.len() > 0 ==> t.last() != '\r',
    ensures
        rewrite::setting_of(rewrite::spliced(t, rewrite::locate(t, key), key, rewrite::quoted(s), eol), other) == rewrite::setting_of(t, other),
    decreases t.len(),
{
    let place = rewrite::locate(t, key);
    let all = rewrite::spliced(t, place, key, rewrite::quoted(s), eol);
    lemma_locate_bounds(t, key);
    lemma_locate_bounds(t, other);
    if t.len() == 0 || rewrite::is_header(text::first_body(t)) {
        text::lemma_line(t);
        assert(place == Place::End(0));
        let added = key + seq![' ', '=', ' '] + rewrite::quoted(s) + (eol + t);
        lemma_added_line(key, s, eol, t);
        assert(all =~= added);
    } else {
        let end = lemma_line_parts(t);
        let n = text::line_len(t);
        let body = text::first_body(t);
        let rest = t.skip(n);
        text::lemma_line(t);
        lemma_locate_bounds(rest, other);
        if rewrite::value_span(body, key) is Some {
            let (i, g) = lemma_span_some(body, key);
            lemma_one_key(body, key, other, i, g);
            lemma_found_here(t, key, s, end);
            let span = rewrite::value_span(body, key)->0;
            let m = body.len() - (span.1 - span.0) + rewrite::quoted(s).len() + end.len();
            assert(all == t.subrange(0, span.0) + rewrite::quoted(s) + t.skip(span.1));
            lemma_shifted(all, rest, rewrite::locate(rest, other), m);
            lemma_shifted(t, rest, rewrite::locate(rest, other), n);
        } else if end.len() > 0 {
            let p2 = rewrite::locate(rest, key);
            lemma_locate_bounds(rest, key);
            let all2 = rewrite::spliced(rest, p2, key, rewrite::quoted(s), eol);
            assert(t[n - 1] == '\n') by {
                assert(t[n - 1] == (body + end)[n - 1]);
            }
            assert(all =~= body + end + all2);
            text::lemma_line_then(body, end, all2);
            if rewrite::value_span(body, other) is Some {
                assert(all.subrange(0, body.len() as int) =~= body);
                let span = rewrite::value_span(body, other)->0;
                let (i, g) = lemma_span_some(body, other);
                lemma_span_of(body, other, i, g);
                lemma_extent(body.skip(span.0));
                assert(all.subrange(span.0, span.1) =~= t.subrange(span.0, span.1));
            } else {
                if rest.len() > 0 {
                    assert(rest.last() == t.last());
                }
                lemma_others_stay(rest, key, other, s, eol);
                lemma_locate_bounds(all2, other);
                lemma_shifted(all, all2, rewrite::locate(all2, other), n);
                lemma_shifted(t, rest, rewrite::locate(rest, other), n);
            }
        } else {
            assert(rest =~= Seq::<char>::empty());
            assert(t.last() != '\n') by {
                assert(body[t.len() - 1] != '\n');
            }
            let added = key + seq![' ', '=', ' '] + rewrite::quoted(s) + (eol + Seq::<char>::empty());
            lemma_added_line(key, s, eol, Seq::empty());
            assert(all =~= t + eol + added);
            text::lemma_line_then(t, eol, added);
            if rewrite::value_span(body, other) is Some {
                let span = rewrite::value_span(body, other)->0;
                let (i, g) = lemma_span_some(body, other);
                lemma_span_of(body, other, i, g);
                lemma_extent(body.skip(span.0));
                assert(all.subrange(span.0, span.1) =~= t.subrange(span.0, span.1));
            } else {
                assert(rewrite::locate(added, other) is End);
            }
        }
    }
}

/// What stands at a place stands there still with text put in front.
proof fn lemma_shifted(t: Seq<char>, rest: Seq<char>, place: Place, n: int)
    requires
        0 <= n <= t.len(),
        t.skip(n) == rest,
        match place {
            Place::Value(a, b) => 0 <= a <= b <= rest.len(),
            Place::End(a) => 0 <= a <= rest.len(),
        },
    ensures
        match place {
            Place::Value(a, b) => t.subrange(a + n, b + n) == rest.subrange(a, b),
            Place::End(a) => true,
        },
{
    match place {
        Place::Value(a, b) => {
            assert(t.subrange(a + n, b + n) =~= rest.subrange(a, b));
        },
        Place::End(a) => {},
    }
}

/// Setting one key leaves the value of every other key as it was, in any text
/// that does not break off in the middle of a `\r\n`.
pub proof fn law_other_settings_stay(
    t: Seq<char>,
    key: Seq<char>,
    other: Seq<char>,
    value: Seq<char>,
)
    requires
        bare_key(key),
        bare_key(other),
        key != other,
        t.len() > 0 ==> t.last() != '\r',
    ensures
        rewrite::setting_of(rewrite::updated(t, key, value), other) == rewrite::setting_of(t, other),
{
    lemma_others_stay(t, key, other, value, rewrite::line_ending(t));
}

/// A new setting goes on a line of its own: its key, an equals sign between two spaces,
/// its value in quotes and a line ending, which is that of the other lines. It begins
/// where a line does; where the text before it lacks a line ending, that is put there
/// first.
pub proof fn law_a_new_setting_has_a_line_of_its_own(t: Seq<char>, key: Seq<char>, value: Seq<char>)
    requires
        bare_key(key),
        rewrite::setting_of(t, key) is None,
    ensures
        ({
            let crlf = exists|i: int|
                0 <= i && i + 1 < t.len() && #[trigger] t[i] == '\r' && t[i + 1] == '\n';
            let eol = if crlf {
                seq!['\r', '\n']
            } else {
                seq!['\n']
            };
            let line = key + seq![' ', '=', ' '] + rewrite::quoted(value) + eol;
            let new = rewrite::updated(t, key, value);
            exists|a: int|
                {
                    &&& 0 <= a <= t.len()
                    &&& new.take(a) == #[trigger] t.take(a)
                    &&& if a == 0 || t[a - 1] == '\n' {
                        new == t.take(a) + line + t.skip(a)
                    } else {
                        new == t.take(a) + eol + line + t.skip(a)
                    }
                }
        }),
{
    lemma_locate_bounds(t, key);
    let a = rewrite::locate(t, key)->End_0;
    let crlf = exists|i: int|
        0 <= i && i + 1 < t.len() && #[trigger] t[i] == '\r' && t[i + 1] == '\n';
    let eol = rewrite::line_ending(t);
    assert(crlf == rewrite::has_crlf(t));
    let line = key + seq![' ', '=', ' '] + rewrite::quoted(value) + eol;
    let new = rewrite::updated(t, key, value);
    assert(t.subrange(0, a) =~= t.take(a));
    if a == 0 || t[a - 1] == '\n' {
        assert(new =~= t.take(a) + line + t.skip(a));
    } else {
        assert(new =~= t.take(a) + eol + line + t.skip(a));
    }
    assert(new.take(a) =~= t.take(a));
}

/// A file that begins with a table has no settings of its own: a new one goes in front.
pub proof fn law_a_setting_goes_before_the_tables(t: Seq<char>, key: Seq<char>, value: Seq<char>)
    requires
        t.len() > 0,
        t[0] == '[',
    ensures
        rewrite::setting_of(t, key) is None,
        rewrite::updated(t, key, value) == key + seq![' ', '=', ' '] + rewrite::quoted(value)
            + rewrite::line_ending(t) + t,
{
    text::lemma_line(t);
    assert(text::first_body(t).len() > 0 && text::first_body(t)[0] == '[');
    assert(rewrite::is_header(text::first_body(t)));
    assert(rewrite::locate(t, key) == Place::End(0));
    assert(t.subrange(0, 0) =~= Seq::<char>::empty());
    assert(t.skip(0) =~= t);
    assert(rewrite::updated(t, key, value) =~= key + seq![' ', '=', ' '] + rewrite::quoted(value)
        + rewrite::line_ending(t) + t);
}

proof fn lemma_bare_end_is(v: Seq<char>, i: int, n: int)
    requires
        0 <= i <= n <= v.len(),
        forall|k: int| i <= k < n ==> !text::white_space(#[trigger] v[k]) && v[k] != '#',
        n < v.len() ==> text::white_space(v[n]) || v[n] == '#',
    ensures
        rewrite::bare_end(v, i) == n,
    decreases n - i,
{
    if i < n {
        lemma_bare_end_is(v, i + 1, n);
    }
}

/// A value that is a word goes up to the first white space or comment.
pub proof fn law_a_word_ends_at_white_space(word: Seq<char>, rest: Seq<char>)
    requires
        word.len() > 0,
        word[0] != '"' && word[0] != '\'',
        forall|k: int| 0 <= k < word.len() ==> !text::white_space(#[trigger] word[k]) && word[k] != '#',
        rest.len() > 0 ==> text::white_space(rest[0]) || rest[0] == '#',
    ensures
        rewrite::value_extent(word + rest) == word.len(),
{
    let v = word + rest;
    assert forall|k: int| 0 <= k < word.len() implies !text::white_space(#[trigger] v[k]) && v[k]
        != '#' by {
        assert(v[k] == word[k]);
    }
    lemma_bare_end_is(v, 0, word.len() as int);
    assert(v[0] == word[0]);
}

/// A value in quotes goes up to the quote that closes it: between `'` that is the next
/// one, and between `"` the next that was not itself written with a backslash.
pub proof fn law_a_quoted_value_ends_at_its_quote(inner: Seq<char>, rest: Seq<char>)
    requires
        inner.len() > 0,
    ensures
        !inner.contains('\'') ==> rewrite::value_extent(seq!['\''] + inner + seq!['\''] + rest)
            == inner.len() + 2,
        rewrite::value_extent(rewrite::quoted(inner) + rest) == rewrite::quoted(inner).len(),
{
    lemma_quoted_extent(inner, rest);
    if !inner.contains('\'') {
        let v = seq!['\''] + inner + seq!['\''] + rest;
        let n = inner.len() + 1;
        assert(v[1] == inner[0]);
        assert(inner.contains(inner[0]));
        assert forall|k: int| 1 <= k < n implies #[trigger] v[k] != '\'' by {
            assert(v[k] == inner[k - 1]);
            assert(inner.contains(inner[k - 1]));
        }
        assert(v[n as int] == '\'');
        lemma_first_quote(v, 1, n as int);
    }
}

proof fn lemma_first_quote(v: Seq<char>, i: int, n: int)
    requires
        0 <= i <= n < v.len(),
        v[n] == '\'',
        forall|k: int| i <= k < n ==> #[trigger] v[k] != '\'',
    ensures
        text::first_at(v, '\'', i) == n,
    decreases n - i,
{
    if i < n {
        lemma_first_quote(v, i + 1, n);
    }
}

proof fn lemma_triple_close_is(v: Seq<char>, q: char, i: int, n: int)
    requires
        0 <= i <= n,
        rewrite::triple(v, q, n),
        q != '\\',
        forall|k: int| i <= k < n ==> #[trigger] v[k] != q && v[k] != '\\',
    ensures
        rewrite::triple_close(v, q, i) == n,
    decreases n - i,
{
    if i < n {
        lemma_triple_close_is(v, q, i + 1, n);
    }
}

/// A value between three quotes of one kind goes up to the next three, where it holds no
/// such quote and no backslash.
pub proof fn law_a_long_value_ends_at_three_quotes(q: char, inner: Seq<char>, rest: Seq<char>)
    requires
        q == '"' || q == '\'',
        !inner.contains(q),
        !inner.contains('\\'),
        rest.len() > 0 ==> rest[0] != q,
    ensures
        rewrite::value_extent(seq![q, q, q] + inner + seq![q, q, q] + rest) == inner.len() + 6,
{
    let v = seq![q, q, q] + inner + seq![q, q, q] + rest;
    let n = inner.len() as int + 3;
    assert forall|k: int| 3 <= k < n implies #[trigger] v[k] != q && v[k] != '\\' by {
        assert(v[k] == inner[k - 3]);
        assert(inner.contains(inner[k - 3]));
    }
    assert(v[n] == q && v[n + 1] == q && v[n + 2] == q);
    lemma_triple_close_is(v, q, 3, n);
    if rest.len() > 0 {
        assert(v[n + 3] == rest[0]);
    }
    assert(rewrite::triple(v, q, 0));
}

/// What may stand in quotes as it is stands there as it is; a quote, a backslash and what
/// cannot be seen is written with a backslash before it, and with characters that can be
/// seen.
pub proof fn law_what_cannot_be_seen_is_escaped(c: char)
    ensures
        c as int >= 32 && c as int != 127 && c != '"' && c != '\\' ==> rewrite::escaped(c) == seq![c],
        c == '"' || c == '\\' ==> rewrite::escaped(c) == seq!['\\', c],
        (c as int) < 32 || c as int == 127 ==> {
            &&& rewrite::escaped(c).len() >= 2
            &&& rewrite::escaped(c)[0] == '\\'
            &&& forall|i: int|
                0 <= i < rewrite::escaped(c).len() ==> 32 < #[trigger] rewrite::escaped(c)[i] as int
                    && (rewrite::escaped(c)[i] as int) < 127
        },
        (c as int) < 32 && c != '\n' && c != '\r' && c != '\t' || c as int == 127
            ==> rewrite::escaped(c).len() == 6 && rewrite::escaped(c)[1] == 'u' && text::read_as(
            rewrite::escaped(c).skip(2),
            16,
        ) == c as int,
        rewrite::escaped('\n') == seq!['\\', 'n'],
        rewrite::escaped('\r') == seq!['\\', 'r'],
        rewrite::escaped('\t') == seq!['\\', 't'],
{
    let e = rewrite::escaped(c);
    if (c as int) < 32 && c != '\n' && c != '\r' && c != '\t' || c as int == 127 {
        let n = c as int;
        let x = rewrite::hex_char(n / 16);
        let y = rewrite::hex_char(n % 16);
        assert(text::worth(x) == n / 16);
        assert(text::worth(y) == n % 16);
        assert(e.skip(2) =~= seq!['0', '0', x, y]);
        reveal_with_fuel(text::read_as, 5);
        let d = seq!['0', '0', x, y];
        assert(d.drop_last() =~= seq!['0', '0', x]);
        assert(d.drop_last().drop_last() =~= seq!['0', '0']);
        assert(d.drop_last().drop_last().drop_last() =~= seq!['0']);
        assert(d.drop_last().drop_last().drop_last().drop_last() =~= Seq::<char>::empty());
    }
}

} // verus!
