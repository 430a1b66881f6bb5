//! What reading and writing a combination promise each other.
use vstd::prelude::*;

use crate::hotkey::keys::{self, Named};
use crate::hotkey::{self, Code, HotKey, Modifier, Modifiers, Refusal, DEFAULT_SPEC};
use crate::text;

verus! {

/// The first part that names no modifier decides, whatever follows it.
pub(crate) proof fn lemma_first_failure(parts: Seq<Seq<char>>, n: int)
    requires
        0 <= n <= parts.len(),
        hotkey::gathered(parts.subrange(0, n)) is Err,
    ensures
        hotkey::gathered(parts) == hotkey::gathered(parts.subrange(0, n)),
    decreases parts.len() - n,
{
    if n == parts.len() {
        assert(parts.subrange(0, n) =~= parts);
    } else {
        assert(parts.subrange(0, n + 1).drop_last() =~= parts.subrange(0, n));
        lemma_first_failure(parts, n + 1);
    }
}

/// A word: letters and digits, one at least.
spec fn word(w: Seq<char>) -> bool {
    w.len() > 0 && forall|i: int|
        0 <= i < w.len() ==> 'a' <= #[trigger] w[i] <= 'z' || 'A' <= w[i] <= 'Z' || '0' <= w[i]
            <= '9'
}

/// A word behind a text makes the last part longer.
proof fn lemma_split_word(s: Seq<char>, done: Seq<Seq<char>>, part: Seq<char>, w: Seq<char>)
    requires
        text::split(s, '+') == done.push(part),
        forall|i: int| 0 <= i < w.len() ==> #[trigger] w[i] != '+',
    ensures
        text::split(s + w, '+') == done.push(part + w),
    decreases w.len(),
{
    if w.len() == 0 {
        assert(s + w =~= s);
        assert(part + w =~= part);
    } else {
        let v = w.drop_last();
        lemma_split_word(s, done, part, v);
        assert((s + w).drop_last() =~= s + v);
        assert((s + w).last() == w.last());
        let head = done.push(part + v);
        assert(head.update(head.len() - 1, head.last().push(w.last())) =~= done.push(part + w)) by {
            assert((part + v).push(w.last()) =~= part + w);
        }
    }
}

/// A `+` ends a part and opens the next.
proof fn lemma_split_plus(s: Seq<char>)
    ensures
        text::split(s.push('+'), '+') == text::split(s, '+').push(Seq::empty()),
{
    assert(s.push('+').drop_last() =~= s);
}

/// One modifier more, in the text and in its parts.
proof fn lemma_split_modifier(s: Seq<char>, done: Seq<Seq<char>>, held: bool, name: Seq<char>)
    requires
        text::split(s, '+') == done.push(Seq::empty()),
        word(name),
    ensures
        text::split(hotkey::with_modifier(s, held, name), '+') == (if held {
            done.push(name)
        } else {
            done
        }).push(Seq::empty()),
{
    if held {
        lemma_split_word(s, done, Seq::empty(), name);
        assert(Seq::<char>::empty() + name =~= name);
        lemma_split_plus(s + name);
    }
}

/// A word has no space around it.
proof fn lemma_word_is_trimmed(w: Seq<char>)
    requires
        word(w),
    ensures
        text::trimmed(w) == w,
{
    assert(!text::white_space(w[0]));
    assert(!text::white_space(w.last()));
}

spec fn with_part(done: Seq<Seq<char>>, held: bool, name: Seq<char>) -> Seq<Seq<char>> {
    if held {
        done.push(name)
    } else {
        done
    }
}

proof fn lemma_modifier_names()
    ensures
        word("Ctrl"@),
        word("Alt"@),
        word("Shift"@),
        word("Super"@),
        hotkey::modifier_named("Ctrl"@) == Some(Modifier::Control),
        hotkey::modifier_named("Alt"@) == Some(Modifier::Alt),
        hotkey::modifier_named("Shift"@) == Some(Modifier::Shift),
        hotkey::modifier_named("Super"@) == Some(Modifier::Super),
{
    reveal_strlit("Ctrl");
    reveal_strlit("Alt");
    reveal_strlit("Shift");
    reveal_strlit("Super");
    reveal_strlit("ctrl");
    reveal_strlit("control");
    reveal_strlit("alt");
    reveal_strlit("option");
    reveal_strlit("shift");
    reveal_strlit("super");
    assert(text::lower("Ctrl"@) =~= "ctrl"@);
    assert(text::lower("Alt"@) =~= "alt"@);
    assert(text::lower("Shift"@) =~= "shift"@);
    assert(text::lower("Super"@) =~= "super"@);
    assert("alt"@.len() != "ctrl"@.len() && "alt"@.len() != "control"@.len());
    assert("shift"@.len() != "ctrl"@.len() && "shift"@.len() != "control"@.len() && "shift"@.len()
        != "alt"@.len() && "shift"@.len() != "option"@.len());
    assert("super"@.len() != "ctrl"@.len() && "super"@.len() != "control"@.len() && "super"@.len()
        != "alt"@.len() && "super"@.len() != "option"@.len());
    assert("super"@[1] != "shift"@[1]);
}

proof fn lemma_gather_more(done: Seq<Seq<char>>, mods: Modifiers, held: bool, name: Seq<char>, m: Modifier)
    requires
        hotkey::gathered(done) == Ok::<Modifiers, Seq<char>>(mods),
        hotkey::modifier_named(name) == Some(m),
    ensures
        hotkey::gathered(with_part(done, held, name)) == Ok::<Modifiers, Seq<char>>(
            if held {
                mods.with(m)
            } else {
                mods
            },
        ),
{
    if held {
        assert(done.push(name).drop_last() =~= done);
    }
}

/// The short name of every key is a word that names that key.
proof fn lemma_short_names(key: Code)
    requires
        key.wf(),
    ensures
        word(key.short()),
        hotkey::code_named(key.short()) == Some(key),
{
    let t = text::lower(key.short());
    match key {
        Code::Letter(c) => {
            assert(t[0] == text::lower_char(c));
        },
        Code::Digit(c) => {
            assert(t[0] == c);
        },
        Code::Named(k) => {
            keys::lemma_names_are_plain(k);
            keys::law_every_key_is_found_by_its_name(k);
            assert forall|i: int| 0 <= i < k.spelling().len() implies 'a' <= #[trigger] k.spelling()[i]
                <= 'z' || 'A' <= k.spelling()[i] <= 'Z' || '0' <= k.spelling()[i] <= '9' by {
                assert(k.low()[i] == text::lower_char(k.spelling()[i]));
            }
        },
    }
}

/// A combination is read back from the way it is written, so what is shown can
/// be typed.
#[verifier::rlimit(30)]
pub proof fn law_a_described_hotkey_is_read_back(hotkey: HotKey)
    requires
        hotkey.key.wf(),
    ensures
        hotkey::parsed(hotkey::described(hotkey)) == Ok::<HotKey, Refusal>(hotkey),
{
    let mods = hotkey.mods;
    let text = hotkey::described(hotkey);
    let none = Seq::<Seq<char>>::empty();
    lemma_modifier_names();
    lemma_short_names(hotkey.key);
    let short = hotkey.key.short();

    // The text splits into the parts it was made of.
    let c = hotkey::with_modifier(Seq::empty(), mods.control, "Ctrl"@);
    let a = hotkey::with_modifier(c, mods.alt, "Alt"@);
    let s = hotkey::with_modifier(a, mods.shift, "Shift"@);
    let cp = with_part(none, mods.control, "Ctrl"@);
    let ap = with_part(cp, mods.alt, "Alt"@);
    let sp = with_part(ap, mods.shift, "Shift"@);
    let lp = with_part(sp, mods.logo, "Super"@);
    assert(text::split(Seq::<char>::empty(), '+') =~= none.push(Seq::empty()));
    lemma_split_modifier(Seq::empty(), none, mods.control, "Ctrl"@);
    lemma_split_modifier(c, cp, mods.alt, "Alt"@);
    lemma_split_modifier(a, ap, mods.shift, "Shift"@);
    lemma_split_modifier(s, sp, mods.logo, "Super"@);
    lemma_split_word(hotkey::modifiers_text(mods), lp, Seq::empty(), short);
    assert(Seq::<char>::empty() + short =~= short);
    let parts = lp.push(short);
    assert(text::split(text, '+') == parts);

    // Every part is a word, and stays as it is.
    assert forall|i: int| 0 <= i < parts.len() implies word(#[trigger] parts[i]) by {}
    assert(hotkey::tokens(text) =~= parts) by {
        assert forall|i: int| 0 <= i < parts.len() implies text::trimmed(#[trigger] parts[i])
            == parts[i] by {
            lemma_word_is_trimmed(parts[i]);
        }
    }
    assert(parts.drop_last() =~= lp);

    // The parts before the last name the modifiers.
    let m0 = Modifiers::none();
    assert(hotkey::gathered(none) == Ok::<Modifiers, Seq<char>>(m0));
    let m1 = Modifiers { control: mods.control, ..m0 };
    let m2 = Modifiers { alt: mods.alt, ..m1 };
    let m3 = Modifiers { shift: mods.shift, ..m2 };
    lemma_gather_more(none, m0, mods.control, "Ctrl"@, Modifier::Control);
    lemma_gather_more(cp, m1, mods.alt, "Alt"@, Modifier::Alt);
    lemma_gather_more(ap, m2, mods.shift, "Shift"@, Modifier::Shift);
    lemma_gather_more(sp, m3, mods.logo, "Super"@, Modifier::Super);
    assert(hotkey::gathered(lp) == Ok::<Modifiers, Seq<char>>(mods));

    // There is something to read.
    assert(text::trimmed(text).len() > 0) by {
        lemma_trimmed_keeps(text, text.len() - 1);
        assert(text.last() == short.last());
    }
}

/// White space is all that trimming takes.
proof fn lemma_trimmed_keeps(s: Seq<char>, i: int)
    requires
        0 <= i < s.len(),
        !text::white_space(s[i]),
    ensures
        text::trimmed(s).len() > 0,
{
    lemma_start_keeps(s, i);
}

proof fn lemma_start_keeps(s: Seq<char>, i: int)
    requires
        0 <= i < s.len(),
        !text::white_space(s[i]),
    ensures
        text::trim_end(text::trim_start(s)).len() > 0,
    decreases s.len(),
{
    if text::white_space(s[0]) {
        assert(s.drop_first()[i - 1] == s[i]);
        lemma_start_keeps(s.drop_first(), i - 1);
    } else {
        lemma_end_keeps(s, i);
    }
}

proof fn lemma_end_keeps(s: Seq<char>, i: int)
    requires
        0 <= i < s.len(),
        !text::white_space(s[i]),
    ensures
        text::trim_end(s).len() > 0,
    decreases s.len(),
{
    if text::white_space(s.last()) {
        assert(s.drop_last()[i] == s[i]);
        lemma_end_keeps(s.drop_last(), i);
    }
}

/// What is read is always a key that has a name: a letter is a letter and a
/// digit is a digit.
pub proof fn law_a_parsed_key_is_a_key(spec: Seq<char>)
    ensures
        match hotkey::parsed(spec) {
            Ok(hotkey) => hotkey.key.wf(),
            Err(_) => true,
        },
{
}

/// The combination that is bound where none is given can be read, and takes no
/// typing key away: it holds Ctrl and Shift.
pub proof fn law_the_default_can_be_bound()
    ensures
        hotkey::parsed(DEFAULT_SPEC@) == Ok::<HotKey, Refusal>(
            HotKey {
                mods: Modifiers { control: true, alt: false, shift: true, logo: false },
                key: Code::Named(crate::hotkey::keys::Named::Space),
            },
        ),
{
    let hotkey = HotKey {
        mods: Modifiers { control: true, alt: false, shift: true, logo: false },
        key: Code::Named(crate::hotkey::keys::Named::Space),
    };
    reveal_strlit("Ctrl+Shift+Space");
    reveal_strlit("Ctrl");
    reveal_strlit("Shift");
    reveal_strlit("Space");
    assert(hotkey::described(hotkey) =~= DEFAULT_SPEC@);
    law_a_described_hotkey_is_read_back(hotkey);
}

proof fn lemma_lower_char(c: char)
    ensures
        text::white_space(text::lower_char(c)) == text::white_space(c),
        (text::lower_char(c) == '+') == (c == '+'),
        text::lower_char(text::lower_char(c)) == text::lower_char(c),
{
}

proof fn lemma_lower_twice(s: Seq<char>)
    ensures
        text::lower(text::lower(s)) == text::lower(s),
{
    assert forall|i: int| 0 <= i < s.len() implies text::lower(text::lower(s))[i] == text::lower(
        s,
    )[i] by {
        lemma_lower_char(s[i]);
    }
    assert(text::lower(text::lower(s)) =~= text::lower(s));
}

proof fn lemma_lower_start(s: Seq<char>)
    ensures
        text::trim_start(text::lower(s)) == text::lower(text::trim_start(s)),
    decreases s.len(),
{
    if s.len() > 0 {
        lemma_lower_char(s[0]);
        if text::white_space(s[0]) {
            assert(text::lower(s).drop_first() =~= text::lower(s.drop_first()));
            lemma_lower_start(s.drop_first());
        }
    }
}

proof fn lemma_lower_end(s: Seq<char>)
    ensures
        text::trim_end(text::lower(s)) == text::lower(text::trim_end(s)),
    decreases s.len(),
{
    if s.len() > 0 {
        lemma_lower_char(s.last());
        if text::white_space(s.last()) {
            assert(text::lower(s).drop_last() =~= text::lower(s.drop_last()));
            lemma_lower_end(s.drop_last());
        }
    }
}

proof fn lemma_lower_trimmed(s: Seq<char>)
    ensures
        text::trimmed(text::lower(s)) == text::lower(text::trimmed(s)),
{
    lemma_lower_start(s);
    lemma_lower_end(text::trim_start(s));
}

/// `parts`, each in lower case.
spec fn all_lower(parts: Seq<Seq<char>>) -> Seq<Seq<char>> {
    Seq::new(parts.len(), |i: int| text::lower(parts[i]))
}

proof fn lemma_lower_split(s: Seq<char>)
    ensures
        text::split(text::lower(s), '+') == all_lower(text::split(s, '+')),
    decreases s.len(),
{
    let wanted = all_lower(text::split(s, '+'));
    if s.len() == 0 {
        assert(text::lower(s) =~= s);
        assert(text::split(text::lower(s), '+') =~= wanted);
    } else {
        let init = s.drop_last();
        lemma_lower_split(init);
        lemma_lower_char(s.last());
        text::lemma_split_nonempty(init, '+');
        let head = text::split(init, '+');
        assert(text::lower(s).drop_last() =~= text::lower(init));
        assert(text::lower(s).last() == text::lower_char(s.last()));
        if s.last() == '+' {
            assert(text::lower(Seq::<char>::empty()) =~= Seq::<char>::empty());
            assert(text::split(text::lower(s), '+') =~= wanted);
        } else {
            let c = s.last();
            assert(text::lower(head.last().push(c)) =~= text::lower(head.last()).push(
                text::lower_char(c),
            ));
            assert(text::split(text::lower(s), '+') =~= wanted);
        }
    }
}

proof fn lemma_lower_tokens(s: Seq<char>)
    ensures
        hotkey::tokens(text::lower(s)) == all_lower(hotkey::tokens(s)),
{
    lemma_lower_split(s);
    let parts = text::split(s, '+');
    assert forall|i: int| 0 <= i < parts.len() implies hotkey::tokens(text::lower(s))[i]
        == text::lower(#[trigger] hotkey::tokens(s)[i]) by {
        lemma_lower_trimmed(parts[i]);
    }
    assert(hotkey::tokens(text::lower(s)) =~= all_lower(hotkey::tokens(s)));
}

proof fn lemma_lower_gathered(parts: Seq<Seq<char>>)
    ensures
        hotkey::gathered(all_lower(parts)) == (match hotkey::gathered(parts) {
            Ok(mods) => Ok::<Modifiers, Seq<char>>(mods),
            Err(t) => Err(text::lower(t)),
        }),
    decreases parts.len(),
{
    if parts.len() > 0 {
        lemma_lower_gathered(parts.drop_last());
        assert(all_lower(parts).drop_last() =~= all_lower(parts.drop_last()));
        lemma_lower_twice(parts.last());
    }
}

/// A spelling and the same in lower case are read alike.
proof fn lemma_lower_parsed(spec: Seq<char>)
    ensures
        hotkey::parsed(text::lower(spec)) == (match hotkey::parsed(spec) {
            Ok(hotkey) => Ok::<HotKey, Refusal>(hotkey),
            Err(refusal) => Err(refusal.lowered()),
        }),
{
    let parts = hotkey::tokens(spec);
    let low = hotkey::tokens(text::lower(spec));
    lemma_lower_trimmed(spec);
    lemma_lower_tokens(spec);
    text::lemma_split_nonempty(spec, '+');
    if exists|i: int| 0 <= i < parts.len() && (#[trigger] parts[i]).len() == 0 {
        let i = choose|i: int| 0 <= i < parts.len() && (#[trigger] parts[i]).len() == 0;
        assert(low[i].len() == 0);
    } else if exists|i: int| 0 <= i < low.len() && (#[trigger] low[i]).len() == 0 {
        let i = choose|i: int| 0 <= i < low.len() && (#[trigger] low[i]).len() == 0;
        assert(parts[i].len() == 0);
    } else {
        assert(low.drop_last() =~= all_lower(parts.drop_last()));
        lemma_lower_gathered(parts.drop_last());
        lemma_lower_twice(parts.last());
        assert(low.last() == text::lower(parts.last()));
    }
}

/// A combination may be typed in any case: two spellings that differ in the case of
/// their letters alone are the same combination, or refused for the same reason.
pub proof fn law_the_case_of_letters_does_not_matter(a: Seq<char>, b: Seq<char>)
    requires
        text::lower(a) == text::lower(b),
    ensures
        match (hotkey::parsed(a), hotkey::parsed(b)) {
            (Ok(x), Ok(y)) => x == y,
            (Err(x), Err(y)) => x.lowered() == y.lowered(),
            _ => false,
        },
{
    lemma_lower_parsed(a);
    lemma_lower_parsed(b);
}

/// With one more modifier held that one is held, and the others are as they were.
pub proof fn law_one_more_modifier_is_held(mods: Modifiers, m: Modifier)
    ensures
        mods.with(m).control == (mods.control || m == Modifier::Control),
        mods.with(m).alt == (mods.alt || m == Modifier::Alt),
        mods.with(m).shift == (mods.shift || m == Modifier::Shift),
        mods.with(m).logo == (mods.logo || m == Modifier::Super),
        !Modifiers::none().control && !Modifiers::none().alt && !Modifiers::none().shift
            && !Modifiers::none().logo,
{
}

/// Whether one of `parts` names `m`.
pub open spec fn names(parts: Seq<Seq<char>>, m: Modifier) -> bool {
    exists|i: int| 0 <= i < parts.len() && hotkey::modifier_named(#[trigger] parts[i]) == Some(m)
}

proof fn lemma_names_push(parts: Seq<Seq<char>>, m: Modifier)
    requires
        parts.len() > 0,
    ensures
        names(parts, m) <==> names(parts.drop_last(), m) || hotkey::modifier_named(parts.last())
            == Some(m),
{
    let init = parts.drop_last();
    if names(init, m) {
        let i = choose|i: int|
            0 <= i < init.len() && hotkey::modifier_named(#[trigger] init[i]) == Some(m);
        assert(parts[i] == init[i]);
    }
    if hotkey::modifier_named(parts.last()) == Some(m) {
        assert(parts[parts.len() - 1] == parts.last());
    }
    if names(parts, m) {
        let i = choose|i: int|
            0 <= i < parts.len() && hotkey::modifier_named(#[trigger] parts[i]) == Some(m);
        if i < parts.len() - 1 {
            assert(init[i] == parts[i]);
        }
    }
}

/// The modifiers that are held are those that are named, in whatever order and however
/// often; where a part names none, the first such part is told.
pub proof fn law_the_modifiers_that_are_named_are_held(parts: Seq<Seq<char>>)
    ensures
        match hotkey::gathered(parts) {
            Ok(mods) => {
                &&& mods.control <==> names(parts, Modifier::Control)
                &&& mods.alt <==> names(parts, Modifier::Alt)
                &&& mods.shift <==> names(parts, Modifier::Shift)
                &&& mods.logo <==> names(parts, Modifier::Super)
                &&& forall|i: int|
                    0 <= i < parts.len() ==> hotkey::modifier_named(#[trigger] parts[i]) is Some
            },
            Err(t) => exists|i: int|
                {
                    &&& 0 <= i < parts.len()
                    &&& #[trigger] parts[i] == t
                    &&& hotkey::modifier_named(t) is None
                    &&& forall|j: int|
                        0 <= j < i ==> hotkey::modifier_named(#[trigger] parts[j]) is Some
                },
        },
    decreases parts.len(),
{
    if parts.len() > 0 {
        let init = parts.drop_last();
        law_the_modifiers_that_are_named_are_held(init);
        lemma_names_push(parts, Modifier::Control);
        lemma_names_push(parts, Modifier::Alt);
        lemma_names_push(parts, Modifier::Shift);
        lemma_names_push(parts, Modifier::Super);
        match hotkey::gathered(init) {
            Ok(_) => {
                assert forall|j: int| 0 <= j < parts.len() - 1 implies hotkey::modifier_named(
                    #[trigger] parts[j],
                ) is Some by {
                    assert(parts[j] == init[j]);
                }
                assert(parts[parts.len() - 1] == parts.last());
            },
            Err(t) => {
                let i = choose|i: int|
                    {
                        &&& 0 <= i < init.len()
                        &&& #[trigger] init[i] == t
                        &&& hotkey::modifier_named(t) is None
                        &&& forall|j: int|
                            0 <= j < i ==> hotkey::modifier_named(#[trigger] init[j]) is Some
                    };
                assert(parts[i] == t);
                assert forall|j: int| 0 <= j < i implies hotkey::modifier_named(
                    #[trigger] parts[j],
                ) is Some by {
                    assert(parts[j] == init[j]);
                }
            },
        }
    }
}

/// The words that each modifier goes by, in any case; no other word names one.
pub proof fn law_the_words_for_modifiers(t: Seq<char>)
    ensures
        ({
            let w = text::lower(t);
            let m = hotkey::modifier_named(t);
            &&& m == Some(Modifier::Control) <==> w == "ctrl"@ || w == "control"@
            &&& m == Some(Modifier::Alt) <==> w == "alt"@ || w == "option"@
            &&& m == Some(Modifier::Shift) <==> w == "shift"@
            &&& m == Some(Modifier::Super) <==> w == "super"@ || w == "meta"@ || w == "win"@ || w
                == "windows"@ || w == "cmd"@ || w == "command"@
        }),
{
    reveal_strlit("ctrl");
    reveal_strlit("control");
    reveal_strlit("alt");
    reveal_strlit("option");
    reveal_strlit("shift");
    reveal_strlit("super");
    reveal_strlit("meta");
    reveal_strlit("win");
    reveal_strlit("windows");
    reveal_strlit("cmd");
    reveal_strlit("command");
    assert("ctrl"@.len() == 4 && "control"@.len() == 7 && "alt"@.len() == 3 && "option"@.len() == 6
        && "shift"@.len() == 5 && "super"@.len() == 5 && "meta"@.len() == 4 && "win"@.len() == 3
        && "windows"@.len() == 7 && "cmd"@.len() == 3 && "command"@.len() == 7);
    assert("ctrl"@[0] == 'c' && "control"@[1] == 'o' && "alt"@[0] == 'a' && "option"@[0] == 'o'
        && "shift"@[1] == 'h' && "super"@[1] == 'u' && "meta"@[0] == 'm' && "win"@[0] == 'w'
        && "windows"@[0] == 'w' && "cmd"@[0] == 'c' && "command"@[2] == 'm' && "control"@[2] == 'n');
}

/// A letter or a digit by itself is its own key, in whatever case.
pub proof fn law_a_letter_or_digit_is_its_own_key(c: char)
    ensures
        'a' <= c <= 'z' ==> hotkey::code_named(seq![c]) == Some(
            Code::Letter((c as int - 32) as char),
        ),
        'A' <= c <= 'Z' ==> hotkey::code_named(seq![c]) == Some(Code::Letter(c)),
        '0' <= c <= '9' ==> hotkey::code_named(seq![c]) == Some(Code::Digit(c)),
{
    let t = text::lower(seq![c]);
    assert(t.len() == 1);
    assert(t[0] == text::lower_char(c));
    if 'A' <= c <= 'Z' {
        assert((t[0] as u8 - 32) as char == c);
    }
}

/// What a combination needs: something in every part, a modifier in every part but the
/// last, and a key in the last. Of what it lacks the first thing is told.
pub proof fn law_what_a_combination_needs(spec: Seq<char>)
    ensures
        ({
            let parts = hotkey::tokens(spec);
            let last = parts.last();
            let r = hotkey::parsed(spec);
            let full = forall|i: int| 0 <= i < parts.len() ==> (#[trigger] parts[i]).len() > 0;
            let held = forall|i: int|
                0 <= i < parts.len() - 1 ==> hotkey::modifier_named(#[trigger] parts[i]) is Some;
            let said = text::trimmed(spec).len() > 0;
            &&& r is Ok <==> said && full && held && hotkey::code_named(last) is Some
            &&& r is Ok ==> {
                let init = parts.drop_last();
                &&& Some(r->Ok_0.key) == hotkey::code_named(last)
                &&& r->Ok_0.mods.control <==> names(init, Modifier::Control)
                &&& r->Ok_0.mods.alt <==> names(init, Modifier::Alt)
                &&& r->Ok_0.mods.shift <==> names(init, Modifier::Shift)
                &&& r->Ok_0.mods.logo <==> names(init, Modifier::Super)
            }
            &&& r == Err::<HotKey, Refusal>(Refusal::Empty) <==> !said
            &&& r == Err::<HotKey, Refusal>(Refusal::EmptyToken) <==> said && !full
            &&& r is Err && r->Err_0 is UnknownModifier <==> said && full && !held
            &&& r == Err::<HotKey, Refusal>(Refusal::NoKey) <==> said && full && held
                && hotkey::code_named(last) is None && hotkey::modifier_named(last) is Some
            &&& r == Err::<HotKey, Refusal>(Refusal::UnknownKey(last)) <==> said && full && held
                && hotkey::code_named(last) is None && hotkey::modifier_named(last) is None
        }),
{
    let parts = hotkey::tokens(spec);
    let init = parts.drop_last();
    text::lemma_split_nonempty(spec, '+');
    law_the_modifiers_that_are_named_are_held(init);
    if hotkey::gathered(init) is Ok {
        assert forall|i: int| 0 <= i < parts.len() - 1 implies hotkey::modifier_named(
            #[trigger] parts[i],
        ) is Some by {
            assert(parts[i] == init[i]);
        }
    } else {
        let i = choose|i: int|
            0 <= i < init.len() && hotkey::modifier_named(#[trigger] init[i]) is None;
        assert(parts[i] == init[i]);
    }
}

/// A combination is written with its modifiers before its key, each with a plus behind
/// it, and always in the same order.
pub proof fn law_modifiers_are_written_in_order(hotkey: HotKey)
    ensures
        hotkey::described(hotkey) == (if hotkey.mods.control {
            "Ctrl+"@
        } else {
            Seq::<char>::empty()
        }) + (if hotkey.mods.alt {
            "Alt+"@
        } else {
            Seq::<char>::empty()
        }) + (if hotkey.mods.shift {
            "Shift+"@
        } else {
            Seq::<char>::empty()
        }) + (if hotkey.mods.logo {
            "Super+"@
        } else {
            Seq::<char>::empty()
        }) + hotkey.key.short(),
{
    reveal_strlit("Ctrl");
    reveal_strlit("Alt");
    reveal_strlit("Shift");
    reveal_strlit("Super");
    reveal_strlit("Ctrl+");
    reveal_strlit("Alt+");
    reveal_strlit("Shift+");
    reveal_strlit("Super+");
    let mods = hotkey.mods;
    let none = Seq::<char>::empty();
    assert("Ctrl"@.push('+') =~= "Ctrl+"@);
    assert("Alt"@.push('+') =~= "Alt+"@);
    assert("Shift"@.push('+') =~= "Shift+"@);
    assert("Super"@.push('+') =~= "Super+"@);
    let c = if mods.control {
        "Ctrl+"@
    } else {
        none
    };
    let a = c + if mods.alt {
        "Alt+"@
    } else {
        none
    };
    let s = a + if mods.shift {
        "Shift+"@
    } else {
        none
    };
    let l = s + if mods.logo {
        "Super+"@
    } else {
        none
    };
    assert(hotkey::with_modifier(none, mods.control, "Ctrl"@) =~= c);
    assert(hotkey::with_modifier(c, mods.alt, "Alt"@) =~= a);
    assert(hotkey::with_modifier(a, mods.shift, "Shift"@) =~= s);
    assert(hotkey::with_modifier(s, mods.logo, "Super"@) =~= l);
}

/// A letter, a digit, space, enter or tab that is grabbed with no modifier could no longer
/// be typed, so the user is told; of no other combination is anything said.
pub proof fn law_only_typing_keys_are_warned_of(hotkey: HotKey)
    ensures
        ({
            let bare = !hotkey.mods.control && !hotkey.mods.alt && !hotkey.mods.shift
                && !hotkey.mods.logo;
            let typing = hotkey.key is Letter || hotkey.key is Digit || hotkey.key == Code::Named(
                Named::Space,
            ) || hotkey.key == Code::Named(Named::Enter) || hotkey.key == Code::Named(Named::Tab);
            &&& hotkey::risk(hotkey) is Some <==> bare && typing
            &&& bare && typing ==> text::starts(hotkey::risk(hotkey)->0, hotkey.key.short())
        }),
{
    let m = hotkey.mods;
    let bare = !m.control && !m.alt && !m.shift && !m.logo;
    if bare {
        assert(m == Modifiers::none());
        assert(hotkey::described(hotkey) =~= hotkey.key.short());
        if hotkey::risk(hotkey) is Some {
            let all = hotkey::risk(hotkey)->0;
            assert(all.subrange(0, hotkey.key.short().len() as int) =~= hotkey.key.short());
        }
    }
}

/// The short forms that keys go by.
pub proof fn law_the_short_forms_of_keys()
    ensures
        keys::key_aliased("esc"@) == Some(Named::Escape),
        keys::key_aliased("return"@) == Some(Named::Enter),
        keys::key_aliased("up"@) == Some(Named::ArrowUp),
        keys::key_aliased("down"@) == Some(Named::ArrowDown),
        keys::key_aliased("left"@) == Some(Named::ArrowLeft),
        keys::key_aliased("right"@) == Some(Named::ArrowRight),
        keys::key_aliased("pgup"@) == Some(Named::PageUp),
        keys::key_aliased("pgdn"@) == Some(Named::PageDown),
        keys::key_aliased("ins"@) == Some(Named::Insert),
        keys::key_aliased("del"@) == Some(Named::Delete),
        keys::key_aliased("spacebar"@) == Some(Named::Space),
        keys::key_aliased(seq!['`']) == Some(Named::Backquote),
        keys::key_aliased(seq!['\\']) == Some(Named::Backslash),
        keys::key_aliased(seq!['[']) == Some(Named::BracketLeft),
        keys::key_aliased(seq![']']) == Some(Named::BracketRight),
        keys::key_aliased(seq![',']) == Some(Named::Comma),
        keys::key_aliased(seq!['=']) == Some(Named::Equal),
        keys::key_aliased(seq!['-']) == Some(Named::Minus),
        keys::key_aliased(seq!['.']) == Some(Named::Period),
        keys::key_aliased(seq!['\'']) == Some(Named::Quote),
        keys::key_aliased(seq![';']) == Some(Named::Semicolon),
        keys::key_aliased(seq!['/']) == Some(Named::Slash),
{
    reveal_strlit("esc");
    reveal_strlit("return");
    reveal_strlit("up");
    reveal_strlit("down");
    reveal_strlit("left");
    reveal_strlit("right");
    reveal_strlit("pgup");
    reveal_strlit("pgdn");
    reveal_strlit("ins");
    reveal_strlit("del");
    reveal_strlit("spacebar");
    reveal_strlit("`");
    reveal_strlit("\\");
    reveal_strlit("[");
    reveal_strlit("]");
    reveal_strlit(",");
    reveal_strlit("=");
    reveal_strlit("-");
    reveal_strlit(".");
    reveal_strlit("'");
    reveal_strlit(";");
    reveal_strlit("/");
    assert("esc"@.len() == 3 && "return"@.len() == 6 && "up"@.len() == 2 && "down"@.len() == 4
        && "left"@.len() == 4 && "right"@.len() == 5 && "pgup"@.len() == 4 && "pgdn"@.len() == 4
        && "ins"@.len() == 3 && "del"@.len() == 3 && "spacebar"@.len() == 8);
    assert("esc"@[0] == 'e' && "ins"@[0] == 'i' && "del"@[0] == 'd');
    assert("down"@[0] == 'd' && "left"@[0] == 'l' && "pgup"@[2] == 'u' && "pgdn"@[2] == 'd'
        && "pgup"@[0] == 'p' && "pgdn"@[0] == 'p');
    assert("`"@ =~= seq!['`']);
    assert("\\"@ =~= seq!['\\']);
    assert("["@ =~= seq!['[']);
    assert("]"@ =~= seq![']']);
    assert(","@ =~= seq![',']);
    assert("="@ =~= seq!['=']);
    assert("-"@ =~= seq!['-']);
    assert("."@ =~= seq!['.']);
    assert("'"@ =~= seq!['\'']);
    assert(";"@ =~= seq![';']);
    assert("/"@ =~= seq!['/']);
    assert(seq!['`'][0] == '`');
    assert(seq!['\\'][0] == '\\');
    assert(seq!['['][0] == '[');
    assert(seq![']'][0] == ']');
    assert(seq![','][0] == ',');
    assert(seq!['='][0] == '=');
    assert(seq!['-'][0] == '-');
    assert(seq!['.'][0] == '.');
    assert(seq!['\''][0] == '\'');
    assert(seq![';'][0] == ';');
    assert(seq!['/'][0] == '/');
}

/// Every key can be given by its full name, in whatever case.
pub proof fn law_a_full_name_is_read(key: Code)
    requires
        key.wf(),
    ensures
        hotkey::code_named(key.full()) == Some(key),
{
    reveal_strlit("Key");
    reveal_strlit("Digit");
    reveal_strlit("key");
    reveal_strlit("digit");
    let t = text::lower(key.full());
    match key {
        Code::Letter(c) => {
            assert(t.len() == 4);
            assert(t.subrange(0, 3) =~= "key"@);
            assert(t.last() == text::lower_char(c));
            assert((t.last() as u8 - 32) as char == c);
        },
        Code::Digit(c) => {
            assert(t.len() == 6);
            assert(t[0] == text::lower_char('D'));
            assert(t[0] == 'd');
            if text::starts(t, "key"@) {
                assert(t.subrange(0, 3)[0] == "key"@[0]);
            }
            assert(t.subrange(0, 5) =~= "digit"@);
            assert(t.last() == text::lower_char(c));
        },
        Code::Named(_) => {
            lemma_short_names(key);
        },
    }
}

/// A variable that is empty counts as one that is not set.
pub proof fn law_an_empty_variable_is_not_set(v: String)
    ensures
        v@.len() > 0 ==> hotkey::set_value(Some(v)) == Some(v@),
        v@.len() == 0 ==> hotkey::set_value(Some(v)) is None,
        hotkey::set_value(None) is None,
{
}

} // verus!
