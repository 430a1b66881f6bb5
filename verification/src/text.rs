//! Characters, text and numbers: the small vocabulary the other modules share.
//!
//! Text is worked on as a sequence of characters; [`chars_of`] and [`string_of`]
//! go between that and `str`.
use vstd::prelude::*;
use vstd::utf8;

verus! {

// ---------------------------------------------------------------------------
// Trusted: what the standard library does with text
// ---------------------------------------------------------------------------
/// `String::push` appends the given character to the end of the string.
pub assume_specification[ String::push ](s: &mut String, c: char)
    ensures
        final(s)@ == old(s)@.push(c),
;

/// What `str`'s `Debug` writes for a string: the text in double quotes, with
/// the characters that cannot be shown written as escapes.
pub uninterp spec fn debug_text(s: Seq<char>) -> Seq<char>;

/// Calls `str`'s `Debug` through `format!("{:?}")` and claims no more than that
/// the result depends on the text alone.
#[verifier::external_body]
pub(crate) fn debug(s: &str) -> (r: String)
    ensures
        r@ == debug_text(s@),
{
    format!("{:?}", s)
}

/// What `String::from_utf8_lossy` makes of bytes that are not UTF-8.
pub uninterp spec fn lossy_text(bytes: Seq<u8>) -> Seq<char>;

/// Calls `String::from_utf8_lossy`. Bytes that are UTF-8 come back as the text
/// they encode; of any other bytes the contract says only that the result
/// depends on them alone.
#[verifier::external_body]
pub(crate) fn lossy(bytes: &[u8]) -> (r: String)
    ensures
        r@ == lossy_text(bytes@),
        utf8::valid_utf8(bytes@) ==> r@ == utf8::decode_utf8(bytes@),
{
    String::from_utf8_lossy(bytes).into_owned()
}

/// Calls `std::str::from_utf8`, which accepts exactly the bytes that are UTF-8
/// and hands them back as the text they encode.
#[verifier::external_body]
pub(crate) fn utf8(bytes: &[u8]) -> (r: Option<String>)
    ensures
        r is Some <==> utf8::valid_utf8(bytes@),
        r is Some ==> utf8::encode_utf8(r->0@) == bytes@,
{
    std::str::from_utf8(bytes).ok().map(str::to_owned)
}

// ---------------------------------------------------------------------------
// Text as characters
// ---------------------------------------------------------------------------
/// The characters of `s`.
pub fn chars_of(s: &str) -> (r: Vec<char>)
    ensures
        r@ == s@,
{
    let mut r: Vec<char> = Vec::new();
    for c in it: s.chars()
        invariant
            it.seq() == s@,
            r@ == s@.subrange(0, it.index() as int),
    {
        r.push(c);
    }
    assert(s@.subrange(0, s@.len() as int) == s@);
    r
}

/// The text made of `cs`.
pub fn string_of(cs: &[char]) -> (r: String)
    ensures
        r@ == cs@,
{
    let mut r = String::new();
    let mut i: usize = 0;
    while i < cs.len()
        invariant
            i <= cs.len(),
            r@ == cs@.subrange(0, i as int),
        decreases cs.len() - i,
    {
        r.push(cs[i]);
        i = i + 1;
    }
    assert(cs@.subrange(0, cs@.len() as int) == cs@);
    r
}

/// Adds the characters of `s` to the end of `out`.
pub fn push_str(out: &mut Vec<char>, s: &str)
    ensures
        final(out)@ == old(out)@ + s@,
{
    let mut cs = chars_of(s);
    out.append(&mut cs);
}

/// Adds `cs` to the end of `out`.
pub fn push_chars(out: &mut Vec<char>, cs: &[char])
    ensures
        final(out)@ == old(out)@ + cs@,
{
    let mut i: usize = 0;
    while i < cs.len()
        invariant
            i <= cs.len(),
            out@ == old(out)@ + cs@.subrange(0, i as int),
        decreases cs.len() - i,
    {
        out.push(cs[i]);
        i = i + 1;
    }
    assert(cs@.subrange(0, cs@.len() as int) == cs@);
}

/// Whether two runs of characters are the same.
pub fn same_chars(a: &[char], b: &[char]) -> (r: bool)
    ensures
        r == (a@ == b@),
{
    if a.len() != b.len() {
        return false;
    }
    let mut i: usize = 0;
    while i < a.len()
        invariant
            i <= a.len(),
            a.len() == b.len(),
            forall|k: int| 0 <= k < i ==> a@[k] == b@[k],
        decreases a.len() - i,
    {
        if a[i] != b[i] {
            assert(a@[i as int] != b@[i as int]);
            return false;
        }
        i = i + 1;
    }
    assert(a@ =~= b@);
    true
}

/// Whether `cs` spells out `s`.
pub fn spells(cs: &[char], s: &str) -> (r: bool)
    ensures
        r == (cs@ == s@),
{
    let other = chars_of(s);
    same_chars(cs, other.as_slice())
}

/// Whether two texts are the same.
pub fn same_text(a: &str, b: &str) -> (r: bool)
    ensures
        r == (a@ == b@),
{
    let x = chars_of(a);
    spells(x.as_slice(), b)
}

/// Whether `s` begins with `prefix`.
pub open spec fn starts<T>(s: Seq<T>, prefix: Seq<T>) -> bool {
    prefix.len() <= s.len() && s.subrange(0, prefix.len() as int) == prefix
}

/// Whether `cs` begins with the text `prefix`.
pub fn starts_with(cs: &[char], prefix: &str) -> (r: bool)
    ensures
        r == starts(cs@, prefix@),
{
    let p = chars_of(prefix);
    if cs.len() < p.len() {
        return false;
    }
    same_chars(vstd::slice::slice_subrange(cs, 0, p.len()), p.as_slice())
}

/// The number of the character `c`.
pub fn code_of(c: char) -> (r: u32)
    ensures
        r as int == c as int,
        r <= 0x10_ffff,
{
    c as u32
}

/// Whether `cs` holds `c`.
pub fn has_char(cs: &[char], c: char) -> (r: bool)
    ensures
        r == cs@.contains(c),
{
    let mut i: usize = 0;
    while i < cs.len()
        invariant
            i <= cs.len(),
            forall|k: int| 0 <= k < i ==> cs@[k] != c,
        decreases cs.len() - i,
    {
        if cs[i] == c {
            assert(cs@[i as int] == c);
            return true;
        }
        i = i + 1;
    }
    false
}

/// The contents of each of `v`, in order.
pub open spec fn contents(v: Seq<Vec<char>>) -> Seq<Seq<char>> {
    Seq::new(v.len(), |i: int| v[i]@)
}

/// The text of each of `v`, in order.
pub open spec fn texts(v: Seq<String>) -> Seq<Seq<char>> {
    Seq::new(v.len(), |i: int| v[i]@)
}

/// The text inside an optional string.
pub open spec fn opt_text(o: Option<String>) -> Option<Seq<char>> {
    match o {
        Some(s) => Some(s@),
        None => None,
    }
}

/// A copy of an optional string.
pub fn copy_text(o: &Option<String>) -> (r: Option<String>)
    ensures
        opt_text(r) == opt_text(*o),
{
    match o {
        Some(s) => Some(s.clone()),
        None => None,
    }
}

// ---------------------------------------------------------------------------
// White space
// ---------------------------------------------------------------------------
/// Whether Unicode gives `c` the `White_Space` property.
pub open spec fn white_space(c: char) -> bool {
    ||| '\u{9}' <= c <= '\u{d}'
    ||| c == ' '
    ||| c == '\u{85}'
    ||| c == '\u{a0}'
    ||| c == '\u{1680}'
    ||| '\u{2000}' <= c <= '\u{200a}'
    ||| c == '\u{2028}'
    ||| c == '\u{2029}'
    ||| c == '\u{202f}'
    ||| c == '\u{205f}'
    ||| c == '\u{3000}'
}

/// Whether `c` is white space.
pub fn is_white_space(c: char) -> (r: bool)
    ensures
        r == white_space(c),
{
    ('\u{9}' <= c && c <= '\u{d}') || c == ' ' || c == '\u{85}' || c == '\u{a0}' || c == '\u{1680}'
        || ('\u{2000}' <= c && c <= '\u{200a}') || c == '\u{2028}' || c == '\u{2029}' || c
        == '\u{202f}' || c == '\u{205f}' || c == '\u{3000}'
}

/// `s` without the white space it begins with.
pub open spec fn trim_start(s: Seq<char>) -> Seq<char>
    decreases s.len(),
{
    if s.len() > 0 && white_space(s[0]) {
        trim_start(s.drop_first())
    } else {
        s
    }
}

/// `s` without the white space it ends with.
pub open spec fn trim_end(s: Seq<char>) -> Seq<char>
    decreases s.len(),
{
    if s.len() > 0 && white_space(s.last()) {
        trim_end(s.drop_last())
    } else {
        s
    }
}

/// `s` without the white space on either side.
pub open spec fn trimmed(s: Seq<char>) -> Seq<char> {
    trim_end(trim_start(s))
}

/// How many characters of white space `cs` begins with.
pub fn leading_space(cs: &[char]) -> (n: usize)
    ensures
        n <= cs.len(),
        trim_start(cs@) == cs@.subrange(n as int, cs@.len() as int),
        forall|i: int| 0 <= i < n ==> white_space(cs@[i]),
        n < cs.len() ==> !white_space(cs@[n as int]),
{
    let mut n: usize = 0;
    assert(cs@.subrange(0, cs@.len() as int) == cs@);
    while n < cs.len() && is_white_space(cs[n])
        invariant
            n <= cs.len(),
            trim_start(cs@) == trim_start(cs@.subrange(n as int, cs@.len() as int)),
            forall|i: int| 0 <= i < n ==> white_space(cs@[i]),
        decreases cs.len() - n,
    {
        assert(cs@.subrange(n as int, cs@.len() as int).drop_first() == cs@.subrange(
            n + 1,
            cs@.len() as int,
        ));
        n = n + 1;
    }
    n
}

/// `cs` without the white space it ends with.
pub fn without_trailing_space(cs: &[char]) -> (r: &[char])
    ensures
        r@ == trim_end(cs@),
{
    let mut n: usize = cs.len();
    assert(cs@.subrange(0, cs@.len() as int) == cs@);
    while n > 0 && is_white_space(cs[n - 1])
        invariant
            n <= cs.len(),
            trim_end(cs@) == trim_end(cs@.subrange(0, n as int)),
        decreases n,
    {
        assert(cs@.subrange(0, n as int).drop_last() == cs@.subrange(0, n - 1));
        n = n - 1;
    }
    vstd::slice::slice_subrange(cs, 0, n)
}

/// `cs` without the white space on either side.
pub fn trim(cs: &[char]) -> (r: &[char])
    ensures
        r@ == trimmed(cs@),
{
    let n = leading_space(cs);
    without_trailing_space(vstd::slice::slice_subrange(cs, n, cs.len()))
}

// ---------------------------------------------------------------------------
// Case
// ---------------------------------------------------------------------------
/// The lower-case form of an ASCII letter; any other character as it is.
pub open spec fn lower_char(c: char) -> char {
    if 'A' <= c <= 'Z' {
        (c as u8 + 32) as char
    } else {
        c
    }
}

/// `s` with every ASCII letter in lower case.
pub open spec fn lower(s: Seq<char>) -> Seq<char> {
    Seq::new(s.len(), |i: int| lower_char(s[i]))
}

/// `c` in lower case, as far as it is an ASCII letter.
pub fn to_lower_char(c: char) -> (r: char)
    ensures
        r == lower_char(c),
{
    if 'A' <= c && c <= 'Z' {
        (c as u8 + 32u8) as char
    } else {
        c
    }
}

/// `cs` with every ASCII letter in lower case.
pub fn to_lower(cs: &[char]) -> (r: Vec<char>)
    ensures
        r@ == lower(cs@),
{
    let mut r: Vec<char> = Vec::new();
    let mut i: usize = 0;
    while i < cs.len()
        invariant
            i <= cs.len(),
            r@ == lower(cs@).subrange(0, i as int),
        decreases cs.len() - i,
    {
        r.push(to_lower_char(cs[i]));
        i = i + 1;
    }
    assert(lower(cs@).subrange(0, cs@.len() as int) == lower(cs@));
    r
}

/// `s` as a name is read: without the space around it, in lower case.
pub open spec fn folded(s: Seq<char>) -> Seq<char> {
    lower(trimmed(s))
}

/// `s` without the space around it, in lower case.
pub fn fold(s: &str) -> (r: Vec<char>)
    ensures
        r@ == folded(s@),
{
    let cs = chars_of(s);
    to_lower(trim(cs.as_slice()))
}

/// Text with no white space at either end and no ASCII capital folds to itself.
pub proof fn lemma_folded_plain(s: Seq<char>)
    requires
        s.len() > 0,
        !white_space(s[0]),
        !white_space(s.last()),
        forall|i: int| 0 <= i < s.len() ==> !('A' <= #[trigger] s[i] <= 'Z'),
    ensures
        trimmed(s) == s,
        folded(s) == s,
{
    assert(lower(s) =~= s);
}

// ---------------------------------------------------------------------------
// Numbers
// ---------------------------------------------------------------------------
/// The character for the decimal digit `d`.
pub open spec fn digit_char(d: nat) -> char {
    ('0' as u8 + d) as char
}

/// `n` in decimal, without leading zeros.
pub open spec fn decimal(n: nat) -> Seq<char>
    decreases n,
{
    if n < 10 {
        seq![digit_char(n)]
    } else {
        decimal(n / 10).push(digit_char(n % 10))
    }
}

/// Appends `n` in decimal to `out`.
pub fn push_decimal(out: &mut Vec<char>, n: u64)
    ensures
        final(out)@ == old(out)@ + decimal(n as nat),
    decreases n,
{
    if n >= 10 {
        push_decimal(out, n / 10);
    }
    let d: u64 = n % 10;
    out.push((48u8 + d as u8) as char);
    assert(out@ =~= old(out)@ + decimal(n as nat));
}

/// The character for the hexadecimal digit `d`, in lower case.
pub open spec fn hex_char(d: int) -> char {
    if d < 10 {
        ('0' as u8 + d) as char
    } else {
        ('a' as u8 + (d - 10)) as char
    }
}

/// The character for the hexadecimal digit `d`, in lower case.
pub(crate) fn hex_digit(d: u8) -> (r: char)
    requires
        d < 16,
    ensures
        r == hex_char(d as int),
{
    if d < 10 {
        (48u8 + d) as char
    } else {
        (97u8 + (d - 10)) as char
    }
}

/// `n` in hexadecimal, at least `width` digits.
pub open spec fn hex_text(n: nat, width: nat) -> Seq<char>
    decreases n + width,
{
    if n == 0 && width == 0 {
        Seq::empty()
    } else {
        hex_text(
            n / 16,
            if width == 0 {
                0
            } else {
                (width - 1) as nat
            },
        ).push(hex_char((n % 16) as int))
    }
}

/// Appends `n` in hexadecimal to `out`, at least `width` digits.
pub(crate) fn push_hex(out: &mut Vec<char>, n: u64, width: usize)
    ensures
        final(out)@ == old(out)@ + hex_text(n as nat, width as nat),
    decreases n + width,
{
    if n == 0 && width == 0 {
        assert(old(out)@ + hex_text(0, 0) =~= old(out)@);
        return;
    }
    let rest: usize = if width == 0 {
        0
    } else {
        width - 1
    };
    push_hex(out, n / 16, rest);
    out.push(hex_digit((n % 16) as u8));
    assert(out@ =~= old(out)@ + hex_text(n as nat, width as nat));
}

// ---------------------------------------------------------------------------
// Splitting
// ---------------------------------------------------------------------------
/// Where `c` first occurs in `s` from `from` on; the length where it does not.
pub open spec fn first_at(s: Seq<char>, c: char, from: int) -> int
    decreases s.len() - from,
{
    if from < 0 || from >= s.len() || s[from] == c {
        from
    } else {
        first_at(s, c, from + 1)
    }
}

/// Where `c` first occurs in `cs` from `from` on; the length where it does not.
pub fn find_char(cs: &[char], c: char, from: usize) -> (r: usize)
    requires
        from <= cs.len(),
    ensures
        r == first_at(cs@, c, from as int),
        from <= r <= cs.len(),
        forall|k: int| from <= k < r ==> cs@[k] != c,
        r < cs.len() ==> cs@[r as int] == c,
{
    let mut i: usize = from;
    while i < cs.len() && cs[i] != c
        invariant
            from <= i <= cs.len(),
            first_at(cs@, c, from as int) == first_at(cs@, c, i as int),
            forall|k: int| from <= k < i ==> cs@[k] != c,
        decreases cs.len() - i,
    {
        i = i + 1;
    }
    i
}

/// The parts of `s` between the separators `c`: always at least one.
pub open spec fn split(s: Seq<char>, c: char) -> Seq<Seq<char>>
    decreases s.len(),
{
    if s.len() == 0 {
        seq![s]
    } else if s.last() == c {
        split(s.drop_last(), c).push(Seq::empty())
    } else {
        let head = split(s.drop_last(), c);
        head.update(head.len() - 1, head.last().push(s.last()))
    }
}

/// There is always a part.
pub proof fn lemma_split_nonempty(s: Seq<char>, c: char)
    ensures
        split(s, c).len() > 0,
    decreases s.len(),
{
    if s.len() > 0 {
        lemma_split_nonempty(s.drop_last(), c);
    }
}

/// The parts of `cs` between the separators `c`.
pub fn split_on(cs: &[char], c: char) -> (r: Vec<Vec<char>>)
    ensures
        contents(r@) == split(cs@, c),
        r.len() > 0,
{
    let mut done: Vec<Vec<char>> = Vec::new();
    let mut cur: Vec<char> = Vec::new();
    let mut i: usize = 0;
    assert(cur@ =~= cs@.subrange(0, 0));
    while i < cs.len()
        invariant
            i <= cs.len(),
            contents(done@).push(cur@) == split(cs@.subrange(0, i as int), c),
        decreases cs.len() - i,
    {
        let ghost before = contents(done@).push(cur@);
        let ghost part = cs@.subrange(0, i + 1);
        assert(part.drop_last() == cs@.subrange(0, i as int));
        if cs[i] == c {
            let ghost old_done = done@;
            let ghost old_cur = cur@;
            done.push(cur);
            cur = Vec::new();
            assert(contents(done@) =~= contents(old_done).push(old_cur));
            assert(contents(done@).push(cur@) =~= before.push(Seq::empty()));
        } else {
            cur.push(cs[i]);
            assert(contents(done@).push(cur@) =~= before.update(
                before.len() - 1,
                before.last().push(cs@[i as int]),
            ));
        }
        i = i + 1;
    }
    assert(cs@.subrange(0, cs@.len() as int) == cs@);
    let ghost old_done = done@;
    let ghost old_cur = cur@;
    done.push(cur);
    assert(contents(done@) =~= contents(old_done).push(old_cur));
    done
}

// ---------------------------------------------------------------------------
// Lines
// ---------------------------------------------------------------------------
/// How long the first line of `t` is, its line ending included.
pub open spec fn line_len(t: Seq<char>) -> int {
    let n = first_at(t, '\n', 0);
    if n < t.len() {
        n + 1
    } else {
        t.len() as int
    }
}

/// How long a line is without its line ending, `\n` or `\r\n`.
pub open spec fn body_len(line: Seq<char>) -> int {
    let n = line.len() as int;
    if n > 0 && line[n - 1] == '\n' {
        if n > 1 && line[n - 2] == '\r' {
            n - 2
        } else {
            n - 1
        }
    } else {
        n
    }
}

/// The first line of `t`, without its line ending.
pub open spec fn first_body(t: Seq<char>) -> Seq<char> {
    t.subrange(0, body_len(t.subrange(0, line_len(t))))
}

/// The lines of `t`, without their line endings.
pub open spec fn lines(t: Seq<char>) -> Seq<Seq<char>>
    decreases t.len(),
{
    let n = line_len(t);
    if 0 < n <= t.len() {
        seq![first_body(t)] + lines(t.skip(n))
    } else {
        Seq::empty()
    }
}

/// How long the first line of `t` is, and how long without its line ending.
pub fn line_body(t: &[char]) -> (r: (usize, usize))
    ensures
        r.0 == line_len(t@),
        r.1 == body_len(t@.subrange(0, line_len(t@))),
        r.1 <= r.0 <= t.len(),
        t.len() > 0 ==> r.0 > 0,
{
    let n = find_char(t, '\n', 0);
    if n >= t.len() {
        assert(t@.subrange(0, t@.len() as int) =~= t@);
        assert(t@.len() > 0 ==> t@.last() != '\n');
        (t.len(), t.len())
    } else if n > 0 && t[n - 1] == '\r' {
        (n + 1, n - 1)
    } else {
        (n + 1, n)
    }
}

/// The lines of `t`, without their line endings.
pub fn lines_of(t: &[char]) -> (r: Vec<Vec<char>>)
    ensures
        contents(r@) == lines(t@),
{
    let mut out: Vec<Vec<char>> = Vec::new();
    let mut from: usize = 0;
    assert(t@.skip(0) =~= t@);
    assert(contents(out@) + lines(t@) =~= lines(t@));
    while from < t.len()
        invariant
            from <= t.len(),
            contents(out@) + lines(t@.skip(from as int)) == lines(t@),
        decreases t.len() - from,
    {
        let rest = vstd::slice::slice_subrange(t, from, t.len());
        assert(rest@ == t@.skip(from as int));
        let (line, body) = line_body(rest);
        let mut content: Vec<char> = Vec::new();
        push_chars(&mut content, vstd::slice::slice_subrange(rest, 0, body));
        assert(content@ =~= first_body(rest@));
        let ghost before = out@;
        out.push(content);
        assert(contents(out@) =~= contents(before).push(first_body(rest@)));
        assert(rest@.skip(line as int) =~= t@.skip(from + line));
        assert(contents(out@) + lines(t@.skip(from + line)) =~= contents(before) + (seq![
            first_body(rest@),
        ] + lines(t@.skip(from + line))));
        from = from + line;
    }
    assert(t@.skip(from as int) =~= Seq::<char>::empty());
    assert(lines(t@.skip(from as int)) =~= Seq::<Seq<char>>::empty());
    assert(contents(out@) =~= lines(t@));
    out
}

/// Where a character is first found.
pub(crate) proof fn lemma_first_at(s: Seq<char>, c: char, from: int)
    requires
        0 <= from <= s.len(),
    ensures
        from <= first_at(s, c, from) <= s.len(),
        forall|i: int| from <= i < first_at(s, c, from) ==> #[trigger] s[i] != c,
        first_at(s, c, from) < s.len() ==> s[first_at(s, c, from)] == c,
    decreases s.len() - from,
{
    if from < s.len() && s[from] != c {
        lemma_first_at(s, c, from + 1);
    }
}

/// Where a character is first found, by what stands before it.
pub(crate) proof fn lemma_first_at_is(s: Seq<char>, c: char, n: int)
    requires
        0 <= n <= s.len(),
        forall|i: int| 0 <= i < n ==> #[trigger] s[i] != c,
        n < s.len() ==> s[n] == c,
    ensures
        first_at(s, c, 0) == n,
{
    lemma_first_at(s, c, 0);
    let m = first_at(s, c, 0);
    if m < n {
        assert(s[m] != c);
    } else if n < m {
        assert(s[n] != c);
    }
}

/// How far the first line of a text goes.
pub(crate) proof fn lemma_line(t: Seq<char>)
    ensures
        0 <= line_len(t) <= t.len(),
        t.len() > 0 ==> line_len(t) > 0,
        0 <= body_len(t.subrange(0, line_len(t))) <= line_len(t),
        first_body(t).len() == body_len(t.subrange(0, line_len(t))),
        forall|i: int| 0 <= i < line_len(t) - 1 ==> #[trigger] t[i] != '\n',
        line_len(t) < t.len() ==> t[line_len(t) - 1] == '\n',
        forall|i: int| 0 <= i < first_body(t).len() ==> #[trigger] first_body(t)[i] != '\n',
{
    lemma_first_at(t, '\n', 0);
    let line = t.subrange(0, line_len(t));
    assert(line.len() > 0 ==> line.last() == t[line_len(t) - 1]);
}

/// A line that its line ending closes is the first line of whatever follows it.
pub(crate) proof fn lemma_line_then(body: Seq<char>, eol: Seq<char>, rest: Seq<char>)
    requires
        forall|i: int| 0 <= i < body.len() ==> #[trigger] body[i] != '\n',
        eol == seq!['\n'] && (body.len() > 0 ==> body.last() != '\r') || eol == seq!['\r', '\n'],
    ensures
        line_len(body + eol + rest) == body.len() + eol.len(),
        first_body(body + eol + rest) == body,
        (body + eol + rest).skip((body.len() + eol.len()) as int) == rest,
{
    let t = body + eol + rest;
    let n = body.len() + eol.len() - 1;
    assert forall|i: int| 0 <= i < n implies #[trigger] t[i] != '\n' by {
        if i < body.len() {
            assert(t[i] == body[i]);
        }
    }
    assert(t[n] == '\n');
    lemma_first_at_is(t, '\n', n);
    let line = t.subrange(0, n + 1);
    assert(line.last() == '\n');
    if eol.len() == 1 && body.len() > 0 {
        assert(line[n - 1] == body.last());
    }
    assert(first_body(t) =~= body);
    assert(t.skip(n + 1) =~= rest);
}

/// A text has no byte below `0x80` in its UTF-8 but those of the characters in it.
pub(crate) proof fn lemma_plain_bytes(t: Seq<char>, x: u8)
    requires
        x < 0x80,
        !t.contains(x as char),
    ensures
        !utf8::encode_utf8(t).contains(x),
    decreases t.len(),
{
    if t.len() > 0 {
        let b = utf8::encode_utf8(t);
        let first = utf8::encode_scalar(t[0] as u32);
        let rest = t.drop_first();
        assert(!rest.contains(x as char)) by {
            if rest.contains(x as char) {
                let k = choose|k: int| 0 <= k < rest.len() && rest[k] == x as char;
                assert(t[k + 1] == x as char);
            }
        }
        lemma_plain_bytes(rest, x);
        vstd::utf8::encode_utf8_first_scalar(t);
        assert(b == first + utf8::encode_utf8(rest));
        assert(t[0] != x as char) by {
            assert(t.contains(t[0]));
        }
        let lead = b[0];
        assert(lead <= 0x7f ==> lead & 0x7f == lead) by (bit_vector);
        if b.contains(x) {
            let k = choose|k: int| 0 <= k < b.len() && b[k] == x;
            if k >= first.len() {
                assert(utf8::encode_utf8(rest)[k - first.len()] == x);
            } else if k == 0 {
                assert(vstd::utf8::is_leading_byte_width_1(lead));
                assert(vstd::utf8::decode_first_scalar(b) == lead as u32);
                vstd::utf8::char_u32_cast(t[0], x as u32);
            } else {
                assert(vstd::utf8::is_continuation_byte(b[k]));
            }
        }
    }
}

// ---------------------------------------------------------------------------
// Laws
// ---------------------------------------------------------------------------
/// What a digit is worth, in any base up to sixteen; less than nothing for what is no
/// digit.
pub open spec fn worth(c: char) -> int {
    if '0' <= c <= '9' {
        c as int - 48
    } else if 'a' <= c <= 'f' {
        c as int - 87
    } else if 'A' <= c <= 'F' {
        c as int - 55
    } else {
        -1
    }
}

/// The number that the digits `s` write in base `base`.
pub open spec fn read_as(s: Seq<char>, base: int) -> int
    decreases s.len(),
{
    if s.len() == 0 {
        0
    } else {
        read_as(s.drop_last(), base) * base + worth(s.last())
    }
}

/// A number in decimal is read back as that number; it is made of decimal digits, and
/// does not begin with a zero unless it is zero.
pub proof fn law_a_decimal_reads_back(n: nat)
    ensures
        read_as(decimal(n), 10) == n,
        decimal(n).len() > 0,
        forall|i: int| 0 <= i < decimal(n).len() ==> '0' <= #[trigger] decimal(n)[i] <= '9',
        n > 0 ==> decimal(n)[0] != '0',
        n == 0 ==> decimal(n) == seq!['0'],
    decreases n,
{
    let s = decimal(n);
    if n < 10 {
        assert(s.drop_last() =~= Seq::<char>::empty());
        assert(read_as(s.drop_last(), 10) == 0);
    } else {
        law_a_decimal_reads_back(n / 10);
        let before = decimal(n / 10);
        assert(s.drop_last() =~= before);
        assert(s[0] == before[0]);
        assert forall|i: int| 0 <= i < s.len() implies '0' <= #[trigger] s[i] <= '9' by {
            if i < before.len() {
                assert(s[i] == before[i]);
            }
        }
    }
}

/// A number in hexadecimal is read back as that number, whatever its width; it is made
/// of digits in lower case, has as many as were asked for or more, and where it has
/// more it does not begin with a zero.
pub proof fn law_a_hexadecimal_reads_back(n: nat, width: nat)
    ensures
        read_as(hex_text(n, width), 16) == n,
        hex_text(n, width).len() >= width,
        hex_text(n, width).len() > width ==> hex_text(n, width)[0] != '0',
        forall|i: int|
            0 <= i < hex_text(n, width).len() ==> '0' <= #[trigger] hex_text(n, width)[i] <= '9'
                || 'a' <= hex_text(n, width)[i] <= 'f',
    decreases n + width,
{
    let s = hex_text(n, width);
    if n == 0 && width == 0 {
    } else {
        let less: nat = if width == 0 {
            0
        } else {
            (width - 1) as nat
        };
        law_a_hexadecimal_reads_back(n / 16, less);
        let before = hex_text(n / 16, less);
        assert(s.drop_last() =~= before);
        assert forall|i: int| 0 <= i < s.len() implies '0' <= #[trigger] s[i] <= '9' || 'a' <= s[i]
            <= 'f' by {
            if i < before.len() {
                assert(s[i] == before[i]);
            }
        }
        if before.len() > 0 {
            assert(s[0] == before[0]);
        }
        if s.len() > width && before.len() == 0 {
            assert(width == 0);
            lemma_no_digits(n / 16);
        }
        if s.len() > width && before.len() > 0 && before.len() <= less {
            assert(width == 0);
        }
    }
}

proof fn lemma_no_digits(n: nat)
    requires
        hex_text(n, 0).len() == 0,
    ensures
        n == 0,
{
}

/// The digits of a number are worth what they say.
pub proof fn law_a_digit_is_worth_itself(d: nat)
    ensures
        d < 10 ==> worth(digit_char(d)) == d,
        d < 16 ==> worth(hex_char(d as int)) == d,
        d < 16 ==> !('A' <= hex_char(d as int) <= 'F'),
{
}

/// Trimming takes white space off both ends and nothing else: what is left stands in
/// the text between white space, and neither begins nor ends with any.
pub proof fn law_trimming_takes_white_space_off(s: Seq<char>)
    ensures
        exists|i: int, j: int|
            {
                &&& 0 <= i <= j <= s.len()
                &&& trimmed(s) == #[trigger] s.subrange(i, j)
                &&& forall|k: int| 0 <= k < i ==> white_space(#[trigger] s[k])
                &&& forall|k: int| j <= k < s.len() ==> white_space(#[trigger] s[k])
            },
        trimmed(s).len() > 0 ==> !white_space(trimmed(s)[0]) && !white_space(trimmed(s).last()),
{
    let n = lemma_trim_start(s);
    let t = trim_start(s);
    let m = lemma_trim_end(t);
    let j = n + m;
    assert(trimmed(s) =~= s.subrange(n, j));
    assert forall|k: int| j <= k < s.len() implies white_space(#[trigger] s[k]) by {
        assert(t[k - n] == s[k]);
    }
    if m > 0 {
        assert(trimmed(s)[0] == t[0]);
        assert(trimmed(s).last() == t[m - 1]);
    }
}

/// Where what is left begins.
proof fn lemma_trim_start(s: Seq<char>) -> (n: int)
    ensures
        0 <= n <= s.len(),
        trim_start(s) == s.subrange(n, s.len() as int),
        forall|k: int| 0 <= k < n ==> white_space(#[trigger] s[k]),
        n < s.len() ==> !white_space(s[n]),
    decreases s.len(),
{
    if s.len() > 0 && white_space(s[0]) {
        let t = s.drop_first();
        let n = lemma_trim_start(t);
        assert(t.subrange(n, t.len() as int) =~= s.subrange(n + 1, s.len() as int));
        assert forall|k: int| 0 <= k < n + 1 implies white_space(#[trigger] s[k]) by {
            if k > 0 {
                assert(t[k - 1] == s[k]);
            }
        }
        if n < t.len() {
            assert(t[n] == s[n + 1]);
        }
        n + 1
    } else {
        assert(s.subrange(0, s.len() as int) =~= s);
        0
    }
}

/// Where what is left ends.
proof fn lemma_trim_end(s: Seq<char>) -> (n: int)
    ensures
        0 <= n <= s.len(),
        trim_end(s) == s.subrange(0, n),
        forall|k: int| n <= k < s.len() ==> white_space(#[trigger] s[k]),
        n > 0 ==> !white_space(s[n - 1]),
    decreases s.len(),
{
    if s.len() > 0 && white_space(s.last()) {
        let t = s.drop_last();
        let n = lemma_trim_end(t);
        assert(t.subrange(0, n) =~= s.subrange(0, n));
        assert forall|k: int| n <= k < s.len() implies white_space(#[trigger] s[k]) by {
            if k < t.len() {
                assert(t[k] == s[k]);
            }
        }
        n
    } else {
        assert(s.subrange(0, s.len() as int) =~= s);
        s.len() as int
    }
}

/// What white space is: the five control characters from the tab on, the space and
/// what else Unicode counts to it, and nothing that leaves a mark.
pub proof fn law_white_space_leaves_no_mark(c: char)
    ensures
        white_space(c) <==> seq![
            9int, 10, 11, 12, 13, 32, 0x85, 0xa0, 0x1680, 0x2000, 0x2001, 0x2002, 0x2003, 0x2004,
            0x2005, 0x2006, 0x2007, 0x2008, 0x2009, 0x200a, 0x2028, 0x2029, 0x202f, 0x205f, 0x3000,
        ].contains(c as int),
        '!' <= c <= '~' ==> !white_space(c),
{
    let all = seq![
        9int, 10, 11, 12, 13, 32, 0x85, 0xa0, 0x1680, 0x2000, 0x2001, 0x2002, 0x2003, 0x2004,
        0x2005, 0x2006, 0x2007, 0x2008, 0x2009, 0x200a, 0x2028, 0x2029, 0x202f, 0x205f, 0x3000,
    ];
    let n = c as int;
    if white_space(c) {
        let k: int = if n <= 13 {
            n - 9
        } else if n == 32 {
            5
        } else if n == 0x85 {
            6
        } else if n == 0xa0 {
            7
        } else if n == 0x1680 {
            8
        } else if n <= 0x200a {
            n - 0x2000 + 9
        } else if n == 0x2028 {
            20
        } else if n == 0x2029 {
            21
        } else if n == 0x202f {
            22
        } else if n == 0x205f {
            23
        } else {
            24
        };
        assert(all[k] == n);
    }
}

/// Lower case keeps the place of every character, turns a capital letter into the
/// small one of its name and leaves every other character alone.
pub proof fn law_lower_case_is_the_small_letter(s: Seq<char>, i: int)
    requires
        0 <= i < s.len(),
    ensures
        lower(s).len() == s.len(),
        'A' <= s[i] <= 'Z' ==> 'a' <= lower(s)[i] <= 'z' && lower(s)[i] as int - 'a' as int
            == s[i] as int - 'A' as int,
        !('A' <= s[i] <= 'Z') ==> lower(s)[i] == s[i],
{
}

/// `parts` with `c` between them.
pub open spec fn rejoined(parts: Seq<Seq<char>>, c: char) -> Seq<char>
    decreases parts.len(),
{
    if parts.len() == 0 {
        Seq::empty()
    } else if parts.len() == 1 {
        parts[0]
    } else {
        rejoined(parts.drop_last(), c).push(c) + parts.last()
    }
}

/// Splitting loses nothing: the parts with the separator between them are the text
/// again, there is always a part, and no part holds the separator.
pub proof fn law_splitting_loses_nothing(s: Seq<char>, c: char)
    ensures
        rejoined(split(s, c), c) == s,
        split(s, c).len() > 0,
        forall|i: int, k: int|
            0 <= i < split(s, c).len() && 0 <= k < split(s, c)[i].len()
                ==> #[trigger] split(s, c)[i][k] != c,
    decreases s.len(),
{
    let parts = split(s, c);
    if s.len() > 0 {
        let t = s.drop_last();
        law_splitting_loses_nothing(t, c);
        let before = split(t, c);
        if s.last() == c {
            assert(parts.drop_last() =~= before);
            assert(rejoined(parts, c) =~= t.push(c));
            assert(t.push(c) =~= s);
            assert forall|i: int, k: int|
                0 <= i < parts.len() && 0 <= k < parts[i].len() implies #[trigger] parts[i][k]
                != c by {
                if i < before.len() {
                    assert(parts[i] == before[i]);
                    assert(before[i][k] != c);
                }
            }
        } else {
            let last = before.last().push(s.last());
            assert(parts.len() == before.len());
            if before.len() == 1 {
                assert(parts[0] == last);
                assert(rejoined(parts, c) == last);
                assert(before[0] == t);
                assert(last =~= s);
            } else {
                assert(parts.drop_last() =~= before.drop_last());
                assert(rejoined(parts, c) =~= rejoined(before, c).push(s.last()));
                assert(t.push(s.last()) =~= s);
            }
            assert forall|i: int, k: int|
                0 <= i < parts.len() && 0 <= k < parts[i].len() implies #[trigger] parts[i][k]
                != c by {
                if i < before.len() - 1 {
                    assert(parts[i] == before[i]);
                    assert(before[i][k] != c);
                } else if k < before.last().len() {
                    assert(parts[i][k] == before[i][k]);
                }
            }
        }
    } else {
        assert(parts[0] == s);
    }
}

/// A text is read line by line: what stands before the first line ending is the first
/// line, and what stands behind it is the rest. A line that nothing ends is a line
/// too, and where there is nothing there is no line.
pub proof fn law_a_text_is_its_lines(body: Seq<char>, rest: Seq<char>)
    requires
        forall|i: int| 0 <= i < body.len() ==> #[trigger] body[i] != '\n',
        body.len() > 0 ==> body.last() != '\r',
    ensures
        lines(body + seq!['\n'] + rest) == seq![body] + lines(rest),
        lines(body + seq!['\r', '\n'] + rest) == seq![body] + lines(rest),
        body.len() > 0 ==> lines(body) == seq![body],
        lines(Seq::empty()) == Seq::<Seq<char>>::empty(),
{
    lemma_line_then(body, seq!['\n'], rest);
    lemma_line_then(body, seq!['\r', '\n'], rest);
    if body.len() > 0 {
        lemma_first_at_is(body, '\n', body.len() as int);
        assert(body.subrange(0, body.len() as int) =~= body);
        assert(body.skip(body.len() as int) =~= Seq::<char>::empty());
        assert(lines(Seq::<char>::empty()) =~= Seq::<Seq<char>>::empty());
        assert(lines(body) =~= seq![body]);
    }
}

/// A name is read without the space around it and without regard to case: whatever
/// white space stands before and behind, what is left is the name in lower case.
pub proof fn law_space_and_case_are_set_aside(lead: Seq<char>, body: Seq<char>, tail: Seq<char>)
    requires
        forall|i: int| 0 <= i < lead.len() ==> white_space(#[trigger] lead[i]),
        forall|i: int| 0 <= i < tail.len() ==> white_space(#[trigger] tail[i]),
        body.len() > 0,
        !white_space(body[0]),
        !white_space(body.last()),
    ensures
        trimmed(lead + body + tail) == body,
        folded(lead + body + tail) == lower(body),
{
    let s = lead + body + tail;
    let n = lemma_trim_start(s);
    if n < lead.len() {
        assert(s[n] == lead[n]);
    }
    if n > lead.len() {
        assert(s[lead.len() as int] == body[0]);
    }
    let t = trim_start(s);
    assert(t =~= body + tail);
    let m = lemma_trim_end(t);
    if m > body.len() {
        assert(t[m - 1] == tail[m - 1 - body.len()]);
    }
    if m < body.len() {
        assert(t[body.len() - 1] == body.last());
    }
    assert(trimmed(s) =~= body);
}

/// A text begins with another exactly where it is that one and something behind it.
pub proof fn law_a_beginning_and_the_rest(prefix: Seq<char>, rest: Seq<char>, s: Seq<char>)
    ensures
        starts(prefix + rest, prefix),
        starts(s, prefix) <==> s.len() >= prefix.len() && s == prefix + s.skip(prefix.len() as int),
{
    let n = prefix.len() as int;
    assert((prefix + rest).subrange(0, n) =~= prefix);
    if s.len() >= n {
        assert(s =~= s.subrange(0, n) + s.skip(n));
        if s == prefix + s.skip(n) {
            assert(s.subrange(0, n) =~= prefix);
        }
    }
}

} // verus!
