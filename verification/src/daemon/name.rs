//! Names for where the resident process listens: readable, bounded, and
//! different for different sessions.
use vstd::prelude::*;
use vstd::utf8;

use crate::text::{self, chars_of, push_hex, push_str, string_of, to_lower_char};

verus! {

/// How many characters of a name are kept.
pub const KEPT: usize = 16;

/// Whether `c` is an ASCII letter or digit.
pub open spec fn alphanumeric(c: char) -> bool {
    'a' <= c <= 'z' || 'A' <= c <= 'Z' || '0' <= c <= '9'
}

/// `c` as it may stand in a name.
pub open spec fn name_char(c: char) -> char {
    if alphanumeric(c) {
        text::lower_char(c)
    } else {
        '-'
    }
}

/// The first characters of `s`, as they may stand in a name.
pub open spec fn kept_chars(s: Seq<char>) -> Seq<char> {
    Seq::new(
        if s.len() < KEPT {
            s.len()
        } else {
            KEPT as nat
        },
        |i: int| name_char(s[i]),
    )
}

/// `s` without the dashes it ends in.
pub open spec fn undashed(s: Seq<char>) -> Seq<char>
    decreases s.len(),
{
    if s.len() > 0 && s.last() == '-' {
        undashed(s.drop_last())
    } else {
        s
    }
}

/// A short part of `s` that may stand in a name.
pub open spec fn sanitized(s: Seq<char>) -> Seq<char> {
    let t = undashed(kept_chars(s));
    if t.len() == 0 {
        seq!['x']
    } else {
        t
    }
}

/// A short part of `value` that may stand in the name of a file: letters in lower
/// case, digits and dashes.
pub fn sanitize(value: &str) -> (r: String)
    ensures
        r@ == sanitized(value@),
{
    let cs = chars_of(value);
    let mut out: Vec<char> = Vec::new();
    let n: usize = if cs.len() < KEPT {
        cs.len()
    } else {
        KEPT
    };
    let mut i: usize = 0;
    while i < n
        invariant
            i <= n <= cs.len(),
            n == kept_chars(cs@).len(),
            out@ == kept_chars(cs@).subrange(0, i as int),
        decreases n - i,
    {
        let c = cs[i];
        if ('a' <= c && c <= 'z') || ('A' <= c && c <= 'Z') || ('0' <= c && c <= '9') {
            out.push(to_lower_char(c));
        } else {
            out.push('-');
        }
        i = i + 1;
    }
    assert(out@ =~= kept_chars(cs@));
    let ghost all = out@;
    let mut m: usize = out.len();
    assert(all.subrange(0, m as int) =~= all);
    while m > 0 && out[m - 1] == '-'
        invariant
            m <= out.len(),
            out@ == all,
            undashed(all) == undashed(all.subrange(0, m as int)),
        decreases m,
    {
        assert(all.subrange(0, m as int).drop_last() =~= all.subrange(0, m - 1));
        m = m - 1;
    }
    if m == 0 {
        let mut x: Vec<char> = Vec::new();
        x.push('x');
        assert(x@ =~= seq!['x']);
        string_of(x.as_slice())
    } else {
        string_of(vstd::slice::slice_subrange(out.as_slice(), 0, m))
    }
}

/// What the hash starts from.
pub const HASH_BASIS: u64 = 0xcbf2_9ce4_8422_2325;

/// What the hash is multiplied by.
pub const HASH_PRIME: u64 = 0x1000_0000_01b3;

/// The hash of `b`: each byte is mixed in, then the whole is multiplied.
pub open spec fn hashed(b: Seq<u8>) -> u64
    decreases b.len(),
{
    if b.len() == 0 {
        HASH_BASIS
    } else {
        (((hashed(b.drop_last()) ^ (b.last() as u64)) * HASH_PRIME) % 0x1_0000_0000_0000_0000) as u64
    }
}

/// The hash of `bytes`.
pub fn fnv1a(bytes: &[u8]) -> (r: u64)
    ensures
        r == hashed(bytes@),
{
    let mut hash: u64 = HASH_BASIS;
    let mut i: usize = 0;
    assert(bytes@.subrange(0, 0) =~= Seq::<u8>::empty());
    while i < bytes.len()
        invariant
            i <= bytes.len(),
            hash == hashed(bytes@.subrange(0, i as int)),
        decreases bytes.len() - i,
    {
        assert(bytes@.subrange(0, i + 1).drop_last() =~= bytes@.subrange(0, i as int));
        hash = (hash ^ (bytes[i] as u64)).wrapping_mul(HASH_PRIME);
        i = i + 1;
    }
    assert(bytes@.subrange(0, bytes@.len() as int) =~= bytes@);
    hash
}

/// A name for `s`: a part that can be read, and a hash of the whole.
pub open spec fn tagged(s: Seq<char>) -> Seq<char> {
    sanitized(s) + "-"@ + text::hex_text((hashed(utf8::encode_utf8(s)) % 0x1_0000_0000) as nat, 8)
}

/// A name for `value`: two values that begin alike still get different hashes.
pub fn tag(value: &str) -> (r: String)
    ensures
        r@ == tagged(value@),
{
    let clean = sanitize(value);
    let mut out = chars_of(clean.as_str());
    push_str(&mut out, "-");
    let hash: u64 = fnv1a(value.as_bytes()) % 0x1_0000_0000;
    push_hex(&mut out, hash, 8);
    string_of(out.as_slice())
}

/// What stands for a session in a name.
pub open spec fn session_tag(session: Option<Seq<char>>) -> Seq<char> {
    match session {
        Some(s) => if s.len() > 0 {
            tagged(s)
        } else {
            "nosession"@
        },
        None => "nosession"@,
    }
}

/// What stands for a session in a name.
pub fn tag_session(session: Option<&str>) -> (r: String)
    ensures
        r@ == session_tag(
            match session {
                Some(s) => Some(s@),
                None => None,
            },
        ),
{
    match session {
        Some(s) => if !s.is_empty() {
            tag(s)
        } else {
            "nosession".to_owned()
        },
        None => "nosession".to_owned(),
    }
}

} // verus!
