//! The fonts that are tried last, for what the bundled ones cannot draw.
use vstd::prelude::*;

use crate::text::{self, same_text};

verus! {

/// The name of the proportional font that is tried last.
pub const SANS: &'static str = "noto-sans";

/// The name of the monospace font that is tried last.
pub const MONO: &'static str = "noto-mono";

/// `chain` with `fallback` at its end, unless it is in it.
pub open spec fn with_last(chain: Seq<Seq<char>>, fallback: Seq<char>) -> Seq<Seq<char>> {
    if chain.contains(fallback) {
        chain
    } else {
        chain.push(fallback)
    }
}

/// Puts `fallback` at the end of `chain`, unless it is in it. The first font that
/// has a character draws it, so a font at the end changes nothing that could be
/// drawn before.
pub fn with_fallback(chain: Vec<String>, fallback: &str) -> (r: Vec<String>)
    ensures
        text::texts(r@) == with_last(text::texts(chain@), fallback@),
{
    let mut i: usize = 0;
    while i < chain.len()
        invariant
            i <= chain.len(),
            forall|k: int| 0 <= k < i ==> text::texts(chain@)[k] != fallback@,
        decreases chain.len() - i,
    {
        if same_text(chain[i].as_str(), fallback) {
            assert(text::texts(chain@)[i as int] == fallback@);
            return chain;
        }
        i = i + 1;
    }
    let ghost before = text::texts(chain@);
    assert(!before.contains(fallback@));
    let mut chain = chain;
    chain.push(fallback.to_owned());
    assert(text::texts(chain@) =~= before.push(fallback@));
    chain
}

/// The chains of the two families, each with its fallback.
pub fn with_fallbacks(proportional: Vec<String>, monospace: Vec<String>) -> (r: (
    Vec<String>,
    Vec<String>,
))
    ensures
        text::texts((r.0)@) == with_last(text::texts(proportional@), SANS@),
        text::texts((r.1)@) == with_last(text::texts(monospace@), MONO@),
{
    (with_fallback(proportional, SANS), with_fallback(monospace, MONO))
}

/// A fallback goes last and does not stack up: what was there keeps its place, and
/// a second time changes nothing.
pub proof fn law_a_fallback_goes_last_once(chain: Seq<Seq<char>>, fallback: Seq<char>)
    ensures
        with_last(chain, fallback).subrange(0, chain.len() as int) == chain,
        with_last(chain, fallback).contains(fallback),
        !chain.contains(fallback) ==> with_last(chain, fallback).last() == fallback,
        with_last(with_last(chain, fallback), fallback) == with_last(chain, fallback),
{
    assert(with_last(chain, fallback).subrange(0, chain.len() as int) =~= chain);
    if !chain.contains(fallback) {
        assert(chain.push(fallback)[chain.len() as int] == fallback);
    }
}

} // verus!
