//! The global key combination that summons the window: how it is written, what
//! it does to other programs, and what a press means.
use vstd::prelude::*;

pub mod keys;
pub mod laws;

use crate::hotkey::keys::{find_alias, find_named, Named};
use crate::path::{self, FilePath};
use crate::text::{
    self, chars_of, debug, push_str, spells, split_on, starts_with, string_of,
    to_lower, trim,
};

verus! {

/// The combination that is bound where none is given.
pub const DEFAULT_SPEC: &'static str = "Ctrl+Shift+Space";

// ---------------------------------------------------------------------------
// Combinations
// ---------------------------------------------------------------------------
/// The modifier keys that are held.
#[derive(Debug, Clone, Copy, PartialEq, Eq, Structural)]
pub struct Modifiers {
    /// Ctrl.
    pub control: bool,
    /// Alt.
    pub alt: bool,
    /// Shift.
    pub shift: bool,
    /// Super: the Windows, Command or Meta key.
    pub logo: bool,
}

/// One modifier key.
#[derive(Debug, Clone, Copy, PartialEq, Eq, Structural)]
pub enum Modifier {
    Control,
    Alt,
    Shift,
    Super,
}

impl Modifiers {
    /// No modifier.
    pub open spec fn none() -> Modifiers {
        Modifiers { control: false, alt: false, shift: false, logo: false }
    }

    /// With one more modifier held.
    pub open spec fn with(self, m: Modifier) -> Modifiers {
        match m {
            Modifier::Control => Modifiers { control: true, ..self },
            Modifier::Alt => Modifiers { alt: true, ..self },
            Modifier::Shift => Modifiers { shift: true, ..self },
            Modifier::Super => Modifiers { logo: true, ..self },
        }
    }

    /// No modifier.
    pub fn empty() -> (r: Modifiers)
        ensures
            r == Modifiers::none(),
    {
        Modifiers { control: false, alt: false, shift: false, logo: false }
    }

    /// Whether no modifier is held.
    pub fn is_empty(self) -> (r: bool)
        ensures
            r == (self == Modifiers::none()),
    {
        !self.control && !self.alt && !self.shift && !self.logo
    }

    /// With one more modifier held.
    pub fn and(self, m: Modifier) -> (r: Modifiers)
        ensures
            r == self.with(m),
    {
        match m {
            Modifier::Control => Modifiers { control: true, ..self },
            Modifier::Alt => Modifiers { alt: true, ..self },
            Modifier::Shift => Modifiers { shift: true, ..self },
            Modifier::Super => Modifiers { logo: true, ..self },
        }
    }
}

/// A key, by its place on the keyboard.
#[derive(Debug, Clone, Copy, PartialEq, Eq, Structural)]
pub enum Code {
    /// A letter, `A` to `Z`.
    Letter(char),
    /// A digit of the top row, `0` to `9`.
    Digit(char),
    /// Any other key.
    Named(Named),
}

impl Code {
    /// The letter is a letter and the digit a digit.
    pub open spec fn wf(self) -> bool {
        match self {
            Code::Letter(c) => 'A' <= c <= 'Z',
            Code::Digit(c) => '0' <= c <= '9',
            Code::Named(_) => true,
        }
    }

    /// The full name of the key.
    pub open spec fn full(self) -> Seq<char> {
        match self {
            Code::Letter(c) => "Key"@.push(c),
            Code::Digit(c) => "Digit"@.push(c),
            Code::Named(k) => k.spelling(),
        }
    }

    /// The name as people type it: a letter or a digit is its own name.
    pub open spec fn short(self) -> Seq<char> {
        match self {
            Code::Letter(c) => seq![c],
            Code::Digit(c) => seq![c],
            Code::Named(k) => k.spelling(),
        }
    }

    /// The full name of the key.
    pub fn name(self) -> (r: String)
        ensures
            r@ == self.full(),
    {
        let mut out: Vec<char> = Vec::new();
        match self {
            Code::Letter(c) => {
                push_str(&mut out, "Key");
                out.push(c);
            },
            Code::Digit(c) => {
                push_str(&mut out, "Digit");
                out.push(c);
            },
            Code::Named(k) => {
                push_str(&mut out, k.name());
            },
        }
        assert(out@ =~= self.full());
        string_of(out.as_slice())
    }
}

/// A key combination.
#[derive(Debug, Clone, Copy, PartialEq, Eq, Structural)]
pub struct HotKey {
    /// The modifiers held.
    pub mods: Modifiers,
    /// The key pressed.
    pub key: Code,
}

/// The id under which the registration of a combination is reported: what
/// `global_hotkey` gives the hotkey made of these modifiers and the key of this
/// name.
pub uninterp spec fn registered_id(
    control: bool,
    alt: bool,
    shift: bool,
    logo: bool,
    key: Seq<char>,
) -> Option<u32>;

/// Whether `s` is the full name of a key.
pub open spec fn full_name(s: Seq<char>) -> bool {
    exists|key: Code| key.wf() && #[trigger] key.full() == s
}

/// Calls `Code::from_str`, `HotKey::new` and `HotKey::id` of `global_hotkey`. The
/// result depends on the modifiers and the name alone. The names of all the keys of
/// this module are in the table of `Code::from_str`, so that there is an id for each;
/// of any other name the contract does not say whether there is one.
#[verifier::external_body]
fn combination_id(control: bool, alt: bool, shift: bool, logo: bool, key: &str) -> (r: Option<u32>)
    ensures
        r == registered_id(control, alt, shift, logo, key@),
        full_name(key@) ==> r is Some,
{
    let code = key.parse::<global_hotkey::hotkey::Code>().ok()?;
    let mut mods = global_hotkey::hotkey::Modifiers::empty();
    mods.set(global_hotkey::hotkey::Modifiers::CONTROL, control);
    mods.set(global_hotkey::hotkey::Modifiers::ALT, alt);
    mods.set(global_hotkey::hotkey::Modifiers::SHIFT, shift);
    mods.set(global_hotkey::hotkey::Modifiers::SUPER, logo);
    Some(global_hotkey::hotkey::HotKey::new(Some(mods), code).id())
}

impl HotKey {
    /// The id under which a press of this combination is reported.
    pub fn id(&self) -> (r: Option<u32>)
        ensures
            r == registered_id(
                self.mods.control,
                self.mods.alt,
                self.mods.shift,
                self.mods.logo,
                self.key.full(),
            ),
            self.key.wf() ==> r is Some,
    {
        let name = self.key.name();
        assert(self.key.wf() ==> full_name(name@));
        combination_id(
            self.mods.control,
            self.mods.alt,
            self.mods.shift,
            self.mods.logo,
            name.as_str(),
        )
    }
}

/// Whether an event of the keyboard is a press of the combination `id`: the
/// events of every combination arrive together, and each press also ends.
pub fn is_press(id: Option<u32>, event: u32, pressed: bool) -> (r: bool)
    ensures
        r == (pressed && id == Some(event)),
{
    match id {
        Some(own) => own == event && pressed,
        None => false,
    }
}

// ---------------------------------------------------------------------------
// Parsing
// ---------------------------------------------------------------------------
/// Why a combination could not be read.
#[derive(Debug, PartialEq, Eq)]
pub enum ParseError {
    /// Nothing but white space.
    Empty,
    /// A `+` with nothing on one side of it.
    EmptyToken,
    /// A part before the last one that is no modifier.
    UnknownModifier(String),
    /// The last part is no key.
    UnknownKey(String),
    /// Modifiers only, with no key to press.
    NoKey,
}

/// A [`ParseError`], by the text in it.
pub enum Refusal {
    Empty,
    EmptyToken,
    UnknownModifier(Seq<char>),
    UnknownKey(Seq<char>),
    NoKey,
}

impl View for ParseError {
    type V = Refusal;

    open spec fn view(&self) -> Refusal {
        match *self {
            ParseError::Empty => Refusal::Empty,
            ParseError::EmptyToken => Refusal::EmptyToken,
            ParseError::UnknownModifier(t) => Refusal::UnknownModifier(t@),
            ParseError::UnknownKey(t) => Refusal::UnknownKey(t@),
            ParseError::NoKey => Refusal::NoKey,
        }
    }
}

/// The modifier that `token` names.
pub open spec fn modifier_named(token: Seq<char>) -> Option<Modifier> {
    let t = text::lower(token);
    if t == "ctrl"@ || t == "control"@ {
        Some(Modifier::Control)
    } else if t == "alt"@ || t == "option"@ {
        Some(Modifier::Alt)
    } else if t == "shift"@ {
        Some(Modifier::Shift)
    } else if t == "super"@ || t == "meta"@ || t == "win"@ || t == "windows"@ || t == "cmd"@ || t
        == "command"@ {
        Some(Modifier::Super)
    } else {
        None
    }
}

/// The modifier that `token` names.
fn modifier(token: &[char]) -> (r: Option<Modifier>)
    ensures
        r == modifier_named(token@),
{
    let t = to_lower(token);
    let t = t.as_slice();
    if spells(t, "ctrl") || spells(t, "control") {
        Some(Modifier::Control)
    } else if spells(t, "alt") || spells(t, "option") {
        Some(Modifier::Alt)
    } else if spells(t, "shift") {
        Some(Modifier::Shift)
    } else if spells(t, "super") || spells(t, "meta") || spells(t, "win") || spells(t, "windows")
        || spells(t, "cmd") || spells(t, "command") {
        Some(Modifier::Super)
    } else {
        None
    }
}

/// The letter key for a letter in lower case.
pub open spec fn letter_key(c: char) -> Option<Code> {
    if 'a' <= c <= 'z' {
        Some(Code::Letter((c as u8 - 32) as char))
    } else {
        None
    }
}

/// The digit key for a digit.
pub open spec fn digit_key(c: char) -> Option<Code> {
    if '0' <= c <= '9' {
        Some(Code::Digit(c))
    } else {
        None
    }
}

/// The key with the full name `t`, in lower case.
pub open spec fn full_key(t: Seq<char>) -> Option<Code> {
    if text::starts(t, "key"@) {
        if t.len() == "key"@.len() + 1 {
            letter_key(t.last())
        } else {
            None
        }
    } else if text::starts(t, "digit"@) {
        if t.len() == "digit"@.len() + 1 {
            digit_key(t.last())
        } else {
            None
        }
    } else {
        match keys::key_named(t) {
            Some(k) => Some(Code::Named(k)),
            None => None,
        }
    }
}

/// The key that `token` names: a letter or a digit by itself, a full name, or
/// what people type for one.
pub open spec fn code_named(token: Seq<char>) -> Option<Code> {
    let t = text::lower(token);
    if t.len() == 1 && letter_key(t[0]) is Some {
        letter_key(t[0])
    } else if t.len() == 1 && digit_key(t[0]) is Some {
        digit_key(t[0])
    } else if full_key(t) is Some {
        full_key(t)
    } else {
        match keys::key_aliased(t) {
            Some(k) => Some(Code::Named(k)),
            None => None,
        }
    }
}

fn letter_code(c: char) -> (r: Option<Code>)
    ensures
        r == letter_key(c),
{
    if 'a' <= c && c <= 'z' {
        Some(Code::Letter((c as u8 - 32u8) as char))
    } else {
        None
    }
}

fn digit_code(c: char) -> (r: Option<Code>)
    ensures
        r == digit_key(c),
{
    if '0' <= c && c <= '9' {
        Some(Code::Digit(c))
    } else {
        None
    }
}

/// The key with the full name `t`, in lower case.
fn named(t: &[char]) -> (r: Option<Code>)
    ensures
        r == full_key(t@),
{
    proof {
        reveal_strlit("key");
        reveal_strlit("digit");
    }
    if starts_with(t, "key") {
        if t.len() == 4 {
            letter_code(t[3])
        } else {
            None
        }
    } else if starts_with(t, "digit") {
        if t.len() == 6 {
            digit_code(t[5])
        } else {
            None
        }
    } else {
        match find_named(t) {
            Some(k) => Some(Code::Named(k)),
            None => None,
        }
    }
}

/// The key that `token` names.
fn code(token: &[char]) -> (r: Option<Code>)
    ensures
        r == code_named(token@),
{
    let t = to_lower(token);
    let t = t.as_slice();
    if t.len() == 1 {
        let letter = letter_code(t[0]);
        if letter.is_some() {
            return letter;
        }
        let digit = digit_code(t[0]);
        if digit.is_some() {
            return digit;
        }
    }
    let full = named(t);
    if full.is_some() {
        return full;
    }
    match find_alias(t) {
        Some(k) => Some(Code::Named(k)),
        None => None,
    }
}

/// The parts of a combination: what stands between the `+`, without the space
/// around it.
pub open spec fn tokens(spec: Seq<char>) -> Seq<Seq<char>> {
    Seq::new(text::split(spec, '+').len(), |i: int| text::trimmed(text::split(spec, '+')[i]))
}

/// The modifiers that `parts` name, or the first part that names none.
pub open spec fn gathered(parts: Seq<Seq<char>>) -> Result<Modifiers, Seq<char>>
    decreases parts.len(),
{
    if parts.len() == 0 {
        Ok(Modifiers::none())
    } else {
        match gathered(parts.drop_last()) {
            Err(t) => Err(t),
            Ok(mods) => match modifier_named(parts.last()) {
                Some(m) => Ok(mods.with(m)),
                None => Err(parts.last()),
            },
        }
    }
}

/// The combination that `spec` writes: modifiers first and one key last, in any
/// case, with any space around the parts.
pub open spec fn parsed(spec: Seq<char>) -> Result<HotKey, Refusal> {
    let parts = tokens(spec);
    if text::trimmed(spec).len() == 0 {
        Err(Refusal::Empty)
    } else if exists|i: int| 0 <= i < parts.len() && (#[trigger] parts[i]).len() == 0 {
        Err(Refusal::EmptyToken)
    } else {
        match gathered(parts.drop_last()) {
            Err(t) => Err(Refusal::UnknownModifier(t)),
            Ok(mods) => match code_named(parts.last()) {
                Some(key) => Ok(HotKey { mods, key }),
                None => if modifier_named(parts.last()) is Some {
                    Err(Refusal::NoKey)
                } else {
                    Err(Refusal::UnknownKey(parts.last()))
                },
            },
        }
    }
}

/// Reads a combination such as `Ctrl+Shift+Space`, `super+p` or `Alt+F1`.
pub fn parse(spec: &str) -> (r: Result<HotKey, ParseError>)
    ensures
        match r {
            Ok(hotkey) => parsed(spec@) == Ok::<HotKey, Refusal>(hotkey),
            Err(e) => parsed(spec@) == Err::<HotKey, Refusal>(e@),
        },
{
    let cs = chars_of(spec);
    if trim(cs.as_slice()).len() == 0 {
        return Err(ParseError::Empty);
    }
    let raw = split_on(cs.as_slice(), '+');
    let ghost parts = tokens(spec@);
    assert(forall|k: int| 0 <= k < raw.len() ==> raw@[k]@ == #[trigger] text::split(spec@, '+')[k]) by {
        assert forall|k: int| 0 <= k < raw.len() implies raw@[k]@ == #[trigger] text::split(
            spec@,
            '+',
        )[k] by {
            assert(text::contents(raw@)[k] == raw@[k]@);
        }
    }
    assert(parts.len() == raw.len());
    let mut i: usize = 0;
    while i < raw.len()
        invariant
            i <= raw.len(),
            parts.len() == raw.len(),
            forall|k: int| 0 <= k < raw.len() ==> text::trimmed(raw@[k]@) == #[trigger] parts[k],
            forall|k: int| 0 <= k < i ==> (#[trigger] parts[k]).len() > 0,
            parts == tokens(spec@),
            text::trimmed(spec@).len() > 0,
        decreases raw.len() - i,
    {
        if trim(raw[i].as_slice()).len() == 0 {
            assert(parts[i as int].len() == 0);
            return Err(ParseError::EmptyToken);
        }
        i = i + 1;
    }
    let last: usize = raw.len() - 1;
    let mut mods = Modifiers::empty();
    let mut i: usize = 0;
    assert(parts.subrange(0, 0) =~= Seq::<Seq<char>>::empty());
    while i < last
        invariant
            i <= last,
            last == raw.len() - 1,
            parts.len() == raw.len(),
            forall|k: int| 0 <= k < raw.len() ==> text::trimmed(raw@[k]@) == #[trigger] parts[k],
            forall|k: int| 0 <= k < parts.len() ==> (#[trigger] parts[k]).len() > 0,
            parts == tokens(spec@),
            text::trimmed(spec@).len() > 0,
            gathered(parts.subrange(0, i as int)) == Ok::<Modifiers, Seq<char>>(mods),
        decreases last - i,
    {
        let token = trim(raw[i].as_slice());
        let ghost upto = parts.subrange(0, i + 1);
        assert(upto.drop_last() =~= parts.subrange(0, i as int));
        assert(upto.last() == parts[i as int]);
        match modifier(token) {
            Some(m) => {
                mods = mods.and(m);
            },
            None => {
                proof {
                    laws::lemma_first_failure(parts.drop_last(), i + 1);
                    assert(parts.drop_last().subrange(0, i + 1) =~= upto);
                }
                return Err(ParseError::UnknownModifier(string_of(token)));
            },
        }
        i = i + 1;
    }
    assert(parts.subrange(0, last as int) =~= parts.drop_last());
    let token = trim(raw[last].as_slice());
    assert(token@ == parts.last());
    match code(token) {
        Some(key) => Ok(HotKey { mods, key }),
        None => if modifier(token).is_some() {
            Err(ParseError::NoKey)
        } else {
            Err(ParseError::UnknownKey(string_of(token)))
        },
    }
}

/// The example that every refusal ends with.
pub open spec fn example() -> Seq<char> {
    "for example \"Ctrl+Shift+Space\", \"Super+P\" or \"Alt+F1\""@
}

impl Refusal {
    /// The same, with what was typed in lower case.
    pub open spec fn lowered(self) -> Refusal {
        match self {
            Refusal::UnknownModifier(t) => Refusal::UnknownModifier(text::lower(t)),
            Refusal::UnknownKey(t) => Refusal::UnknownKey(text::lower(t)),
            _ => self,
        }
    }

    /// What the user is told.
    pub open spec fn told(self) -> Seq<char> {
        match self {
            Refusal::Empty => "the hotkey is empty; "@ + example(),
            Refusal::EmptyToken => "the hotkey has an empty part between '+' separators; "@
                + example(),
            Refusal::UnknownModifier(t) => text::debug_text(t)
                + " is not a modifier (modifiers are Ctrl (Control), Alt (Option), Shift and Super (Meta, Win, Cmd)), and only the last part may be a key; "@
                + example(),
            Refusal::UnknownKey(t) => text::debug_text(t)
                + " is not a key sekio knows; keys are letters, digits, F1-F24, Space, Enter, Tab, Escape, the arrows, Home/End/PageUp/PageDown, Insert/Delete, the numpad keys and punctuation; "@
                + example(),
            Refusal::NoKey => "the hotkey is modifiers only and has no key to press; "@ + example(),
        }
    }
}

impl ParseError {
    /// What the user is told: the part that is wrong, and an example of what
    /// would be right.
    pub fn message(&self) -> (r: String)
        ensures
            r@ == self@.told(),
    {
        let mut out: Vec<char> = Vec::new();
        match self {
            ParseError::Empty => {
                push_str(&mut out, "the hotkey is empty; ");
            },
            ParseError::EmptyToken => {
                push_str(&mut out, "the hotkey has an empty part between '+' separators; ");
            },
            ParseError::UnknownModifier(t) => {
                let shown = debug(t.as_str());
                push_str(&mut out, shown.as_str());
                push_str(
                    &mut out,
                    " is not a modifier (modifiers are Ctrl (Control), Alt (Option), Shift and Super (Meta, Win, Cmd)), and only the last part may be a key; ",
                );
            },
            ParseError::UnknownKey(t) => {
                let shown = debug(t.as_str());
                push_str(&mut out, shown.as_str());
                push_str(
                    &mut out,
                    " is not a key sekio knows; keys are letters, digits, F1-F24, Space, Enter, Tab, Escape, the arrows, Home/End/PageUp/PageDown, Insert/Delete, the numpad keys and punctuation; ",
                );
            },
            ParseError::NoKey => {
                push_str(&mut out, "the hotkey is modifiers only and has no key to press; ");
            },
        }
        push_str(&mut out, "for example \"Ctrl+Shift+Space\", \"Super+P\" or \"Alt+F1\"");
        assert(out@ =~= self@.told());
        string_of(out.as_slice())
    }
}

// ---------------------------------------------------------------------------
// Writing a combination
// ---------------------------------------------------------------------------
/// `s`, followed by `name` and a `+` where `held`.
pub open spec fn with_modifier(s: Seq<char>, held: bool, name: Seq<char>) -> Seq<char> {
    if held {
        (s + name).push('+')
    } else {
        s
    }
}

/// The modifiers as they are typed, each with its `+`.
pub open spec fn modifiers_text(mods: Modifiers) -> Seq<char> {
    let control = with_modifier(Seq::empty(), mods.control, "Ctrl"@);
    let alt = with_modifier(control, mods.alt, "Alt"@);
    let shift = with_modifier(alt, mods.shift, "Shift"@);
    with_modifier(shift, mods.logo, "Super"@)
}

/// A combination as it is typed.
pub open spec fn described(hotkey: HotKey) -> Seq<char> {
    modifiers_text(hotkey.mods) + hotkey.key.short()
}

fn push_modifier(out: &mut Vec<char>, held: bool, name: &str)
    ensures
        final(out)@ == with_modifier(old(out)@, held, name@),
{
    if held {
        push_str(out, name);
        out.push('+');
    }
}

/// Writes a combination the way it is typed, such as `Ctrl+Shift+Space`.
pub fn describe(hotkey: &HotKey) -> (r: String)
    ensures
        r@ == described(*hotkey),
{
    let mut out: Vec<char> = Vec::new();
    push_modifier(&mut out, hotkey.mods.control, "Ctrl");
    push_modifier(&mut out, hotkey.mods.alt, "Alt");
    push_modifier(&mut out, hotkey.mods.shift, "Shift");
    push_modifier(&mut out, hotkey.mods.logo, "Super");
    match hotkey.key {
        Code::Letter(c) | Code::Digit(c) => {
            out.push(c);
        },
        Code::Named(k) => {
            push_str(&mut out, k.name());
        },
    }
    assert(out@ =~= described(*hotkey));
    string_of(out.as_slice())
}

/// Whether `key` is one that people type text with.
pub open spec fn types_text(key: Code) -> bool {
    match key {
        Code::Letter(_) | Code::Digit(_) => true,
        Code::Named(k) => k == Named::Space || k == Named::Enter || k == Named::Tab,
    }
}

/// What is said of a combination that takes a typing key away from every other
/// program: one with no modifier.
pub open spec fn risk(hotkey: HotKey) -> Option<Seq<char>> {
    if hotkey.mods == Modifiers::none() && types_text(hotkey.key) {
        Some(
            described(hotkey)
                + " has no modifier: grabbing it globally stops that key from reaching every other application"@,
        )
    } else {
        None
    }
}

/// A warning for a combination that takes a typing key away from every other
/// program: one with no modifier.
pub fn risky(hotkey: &HotKey) -> (r: Option<String>)
    ensures
        text::opt_text(r) == risk(*hotkey),
{
    if !hotkey.mods.is_empty() {
        return None;
    }
    let typing = match hotkey.key {
        Code::Letter(_) | Code::Digit(_) => true,
        Code::Named(k) => match k {
            Named::Space | Named::Enter | Named::Tab => true,
            _ => false,
        },
    };
    if !typing {
        return None;
    }
    let shown = describe(hotkey);
    let mut out = chars_of(shown.as_str());
    push_str(
        &mut out,
        " has no modifier: grabbing it globally stops that key from reaching every other application",
    );
    Some(string_of(out.as_slice()))
}

// ---------------------------------------------------------------------------
// Registration
// ---------------------------------------------------------------------------
/// What is known of the windowing system before it is asked for anything.
#[derive(Debug, PartialEq, Eq)]
pub enum DisplayServer {
    /// There is one to grab a key on.
    Present(String),
    /// There is none, and why.
    Missing(String),
}

impl DisplayServer {
    /// What it is, or why there is none.
    pub open spec fn what(&self) -> Seq<char> {
        match self {
            DisplayServer::Present(what) => what@,
            DisplayServer::Missing(what) => what@,
        }
    }

    /// What it is, or why there is none.
    pub fn label(&self) -> (r: &str)
        ensures
            r@ == self.what(),
    {
        match self {
            DisplayServer::Present(what) => what.as_str(),
            DisplayServer::Missing(what) => what.as_str(),
        }
    }
}

/// The text of a variable that is set and not empty.
pub open spec fn set_value(v: Option<String>) -> Option<Seq<char>> {
    match v {
        Some(s) => if s@.len() > 0 {
            Some(s@)
        } else {
            None
        },
        None => None,
    }
}

/// Looks for a display server in the environment. `unix` is whether the platform
/// has one to look for; `x11` and `wayland` are the values of `$DISPLAY` and
/// `$WAYLAND_DISPLAY`, where an empty one counts as unset.
pub fn display_server(unix: bool, x11: Option<String>, wayland: Option<String>) -> (r:
    DisplayServer)
    ensures
        r is Present <==> !unix || set_value(x11) is Some,
        r.what() == (if !unix {
            "the desktop session"@
        } else if set_value(x11) is Some {
            "X11 (DISPLAY="@ + set_value(x11)->0 + ")"@
        } else if set_value(wayland) is Some {
            "a Wayland session (WAYLAND_DISPLAY="@ + set_value(wayland)->0
                + ") with no X11 display; global hotkeys are grabbed through X11 only"@
        } else {
            "no display server ($DISPLAY and $WAYLAND_DISPLAY are both unset)"@
        }),
{
    if !unix {
        return DisplayServer::Present("the desktop session".to_owned());
    }
    match x11 {
        Some(display) => {
            if !display.as_str().is_empty() {
                let mut out = chars_of("X11 (DISPLAY=");
                push_str(&mut out, display.as_str());
                push_str(&mut out, ")");
                return DisplayServer::Present(string_of(out.as_slice()));
            }
        },
        None => {},
    }
    match wayland {
        Some(display) => {
            if !display.as_str().is_empty() {
                let mut out = chars_of("a Wayland session (WAYLAND_DISPLAY=");
                push_str(&mut out, display.as_str());
                push_str(
                    &mut out,
                    ") with no X11 display; global hotkeys are grabbed through X11 only",
                );
                return DisplayServer::Missing(string_of(out.as_slice()));
            }
        },
        None => {},
    }
    DisplayServer::Missing(
        "no display server ($DISPLAY and $WAYLAND_DISPLAY are both unset)".to_owned(),
    )
}

/// What asking for the combination came to. A refusal is a value, never an
/// error: the process runs either way.
#[derive(Debug, PartialEq, Eq)]
pub enum Status {
    /// The combination is grabbed.
    Registered { spec: String },
    /// It is not, and why.
    Unavailable { spec: String, reason: String },
}

impl Status {
    /// The combination that was asked for.
    pub open spec fn of(&self) -> Seq<char> {
        match self {
            Status::Registered { spec } => spec@,
            Status::Unavailable { spec, reason } => spec@,
        }
    }

    /// Why it is not grabbed.
    pub open spec fn why(&self) -> Option<Seq<char>> {
        match self {
            Status::Registered { spec } => None,
            Status::Unavailable { spec, reason } => Some(reason@),
        }
    }

    /// `spec` is not grabbed, because of `reason`.
    pub fn unavailable(spec: &str, reason: String) -> (r: Status)
        ensures
            r.of() == spec@,
            r.why() == Some(reason@),
    {
        Status::Unavailable { spec: spec.to_owned(), reason }
    }

    /// Whether the combination is grabbed.
    pub fn is_registered(&self) -> (r: bool)
        ensures
            r == self.why() is None,
    {
        match self {
            Status::Registered { .. } => true,
            Status::Unavailable { .. } => false,
        }
    }

    /// The line to print at startup, where there is something to say.
    pub fn warning(&self) -> (r: Option<String>)
        ensures
            r is Some <==> self.why() is Some,
            r is Some ==> r->0@ == "sekio-gui: the hotkey "@ + self.of() + " was not registered ("@
                + self.why()->0
                + "); the daemon is running anyway — `sekio-gui <path>` still works. Run `sekio-gui --doctor` for details, or --no-hotkey to stop asking."@,
    {
        match self {
            Status::Registered { .. } => None,
            Status::Unavailable { spec, reason } => {
                let mut out = chars_of("sekio-gui: the hotkey ");
                push_str(&mut out, spec.as_str());
                push_str(&mut out, " was not registered (");
                push_str(&mut out, reason.as_str());
                push_str(
                    &mut out,
                    "); the daemon is running anyway — `sekio-gui <path>` still works. Run `sekio-gui --doctor` for details, or --no-hotkey to stop asking.",
                );
                Some(string_of(out.as_slice()))
            },
        }
    }
}

/// What an answer of the platform comes to: with no display it was never asked.
pub fn outcome(spec: &str, display: &DisplayServer, answer: Result<(), String>) -> (r: Status)
    ensures
        r.of() == spec@,
        r.why() == (match (*display, answer) {
            (DisplayServer::Missing(reason), _) => Some(reason@),
            (DisplayServer::Present(_), Ok(_)) => None,
            (DisplayServer::Present(_), Err(reason)) => Some(reason@),
        }),
{
    match display {
        DisplayServer::Missing(reason) => Status::unavailable(spec, reason.clone()),
        DisplayServer::Present(_) => match answer {
            Ok(()) => Status::Registered { spec: spec.to_owned() },
            Err(reason) => Status::unavailable(spec, reason),
        },
    }
}

/// Asks for the combination, where there is a display to ask: `register` is not
/// called where there is none.
pub fn attempt<F: FnOnce() -> Result<(), String>>(
    spec: &str,
    display: &DisplayServer,
    register: F,
) -> (r: Status)
    requires
        *display is Present ==> call_requires(register, ()),
    ensures
        r.of() == spec@,
        *display is Missing ==> r.why() == Some(display.what()),
        *display is Present ==> exists|answer: Result<(), String>|
            #![trigger call_ensures(register, (), answer)]
            call_ensures(register, (), answer) && r.why() == (match answer {
                Ok(_) => None,
                Err(reason) => Some(reason@),
            }),
{
    match display {
        DisplayServer::Missing(reason) => Status::unavailable(spec, reason.clone()),
        DisplayServer::Present(_) => {
            let answer = register();
            outcome(spec, display, answer)
        },
    }
}

// ---------------------------------------------------------------------------
// What a press means
// ---------------------------------------------------------------------------
/// What to do about a press.
#[derive(Debug, PartialEq)]
pub enum Action {
    /// Preview this path.
    Show(FilePath),
    /// It is on screen already: put it away.
    Dismiss,
    /// Nothing.
    Ignore,
}

/// Decides what a press means. `selection` is what is selected now, `showing` the
/// path that the window visibly shows.
pub fn action(selection: Option<FilePath>, showing: Option<&FilePath>) -> (r: Action)
    ensures
        match selection {
            None => r is Ignore,
            Some(path) => if showing is Some && path::same_path(showing->0@, path@) {
                r is Dismiss
            } else {
                r is Show && r->Show_0@ == path@
            },
        },
{
    match selection {
        None => Action::Ignore,
        Some(path) => match showing {
            Some(shown) => if shown.same(&path) {
                Action::Dismiss
            } else {
                Action::Show(path)
            },
            None => Action::Show(path),
        },
    }
}

} // verus!
