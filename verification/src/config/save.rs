//! Keeping a setting that changed while the program runs.
use vstd::prelude::*;

use crate::config::rewrite::{self, with_setting};
use crate::hotkey::{self, parse, ParseError};
use crate::path::{FilePath, PathView};
use crate::state::OnClose;
use crate::style::Theme;
use crate::text::{self, chars_of, debug, push_str, string_of};

verus! {

/// Why a setting could not be kept.
#[derive(Debug, PartialEq)]
pub enum SaveError {
    /// The hotkey cannot be read, so it was not written.
    Hotkey { spec: String, source: ParseError },
    /// The file could not be read or written, and why.
    Io { path: FilePath, reason: String },
}

impl SaveError {
    /// What the user is told.
    pub open spec fn told(&self) -> Seq<char> {
        match self {
            SaveError::Hotkey { spec, source } => "refusing to save the invalid hotkey "@
                + text::debug_text(spec@) + ": "@ + source@.told(),
            SaveError::Io { path, reason } => "cannot save "@ + text::lossy_text(path@.bytes) + ": "@ + reason@,
        }
    }

    /// What the user is told.
    pub fn message(&self) -> (r: String)
        ensures
            r@ == self.told(),
    {
        match self {
            SaveError::Hotkey { spec, source } => {
                let mut out = chars_of("refusing to save the invalid hotkey ");
                let shown = debug(spec.as_str());
                push_str(&mut out, shown.as_str());
                push_str(&mut out, ": ");
                let why = source.message();
                push_str(&mut out, why.as_str());
                string_of(out.as_slice())
            },
            SaveError::Io { path, reason } => {
                let mut out = chars_of("cannot save ");
                let shown = path.display();
                push_str(&mut out, shown.as_str());
                push_str(&mut out, ": ");
                push_str(&mut out, reason.as_str());
                string_of(out.as_slice())
            },
        }
    }
}

/// The file as it is before it is written again.
#[derive(Debug)]
pub enum Existing {
    /// Its text.
    Text(String),
    /// There is none yet.
    Missing,
    /// There is one that cannot be read, and why.
    Unreadable(String),
}

/// The text to start from: a file that cannot be read must not be written over.
pub open spec fn start_text(existing: Existing) -> Result<Seq<char>, Seq<char>> {
    match existing {
        Existing::Text(text) => Ok(text@),
        Existing::Missing => Ok(Seq::empty()),
        Existing::Unreadable(why) => Err(why@),
    }
}

/// The new text of a file that held `existing`, with `key` set to `value`.
pub fn new_text(path: &FilePath, key: &str, value: &str, existing: Existing) -> (r: Result<
    String,
    SaveError,
>)
    ensures
        match (start_text(existing), r) {
            (Ok(text), Ok(new)) => new@ == rewrite::updated(text, key@, value@),
            (Err(why), Err(SaveError::Io { path: at, reason })) => at@ == path@ && reason@ == why,
            _ => false,
        },
{
    match existing {
        Existing::Text(text) => Ok(with_setting(text.as_str(), key, value)),
        Existing::Missing => {
            let none = String::new();
            Ok(with_setting(none.as_str(), key, value))
        },
        Existing::Unreadable(why) => Err(SaveError::Io { path: path.copy(), reason: why }),
    }
}

/// What saving came to, by what writing the new text came to.
pub open spec fn written(path: PathView, answer: Result<(), String>, r: Result<(), SaveError>) -> bool {
    match (answer, r) {
        (Ok(_), Ok(_)) => true,
        (Err(why), Err(SaveError::Io { path: at, reason })) => at@ == path && reason@ == why@,
        _ => false,
    }
}

/// Sets `key` to `value` in the file at `path`: `read` gives the file as it is,
/// `write` takes its new text. Nothing is written where it could not be read.
pub fn save_setting<R: FnOnce() -> Existing, W: FnOnce(String) -> Result<(), String>>(
    path: &FilePath,
    key: &str,
    value: &str,
    read: R,
    write: W,
) -> (r: Result<(), SaveError>)
    requires
        call_requires(read, ()),
        forall|text: String| #[trigger] call_requires(write, (text,)),
    ensures
        saved(path@, key@, value@, read, write, r),
{
    let existing = read();
    let ghost start = start_text(existing);
    match new_text(path, key, value, existing) {
        Ok(text) => {
            let ghost new = text;
            let answer = write(text);
            assert(call_ensures(write, (new,), answer));
            match answer {
                Ok(()) => Ok(()),
                Err(why) => {
                    let r = Err(SaveError::Io { path: path.copy(), reason: why });
                    assert(written(path@, answer, r));
                    r
                },
            }
        },
        Err(e) => Err(e),
    }
}

/// What saving comes to: what was read decides, and then what was written. What
/// is written is the text that was read with the one setting changed.
pub open spec fn saved<R: FnOnce() -> Existing, W: FnOnce(String) -> Result<(), String>>(
    path: PathView,
    key: Seq<char>,
    value: Seq<char>,
    read: R,
    write: W,
    r: Result<(), SaveError>,
) -> bool {
    exists|existing: Existing|
        {
            &&& #[trigger] call_ensures(read, (), existing)
            &&& match start_text(existing) {
                Err(why) => written(path, Err(existing->Unreadable_0), r),
                Ok(text) => exists|new: String, answer: Result<(), String>|
                    {
                        &&& #[trigger] call_ensures(write, (new,), answer)
                        &&& new@ == rewrite::updated(text, key, value)
                        &&& written(path, answer, r)
                    },
            }
        }
}

/// Keeps `spec` as the hotkey in the file at `path`. A hotkey that cannot be
/// read is refused, and neither `read` nor `write` is called.
pub fn save_hotkey<R: FnOnce() -> Existing, W: FnOnce(String) -> Result<(), String>>(
    path: &FilePath,
    spec: &str,
    read: R,
    write: W,
) -> (r: Result<(), SaveError>)
    requires
        hotkey::parsed(spec@) is Ok ==> call_requires(read, ()),
        hotkey::parsed(spec@) is Ok ==> forall|text: String| #[trigger] call_requires(write, (text,)),
    ensures
        match hotkey::parsed(spec@) {
            Err(why) => match r {
                Err(SaveError::Hotkey { spec: refused, source }) => refused@ == spec@ && source@
                    == why,
                _ => false,
            },
            Ok(_) => saved(path@, "hotkey"@, spec@, read, write, r),
        },
{
    match parse(spec) {
        Err(source) => Err(SaveError::Hotkey { spec: spec.to_owned(), source }),
        Ok(_) => save_setting(path, "hotkey", spec, read, write),
    }
}

/// Keeps `theme` in the file at `path`.
pub fn save_theme<R: FnOnce() -> Existing, W: FnOnce(String) -> Result<(), String>>(
    path: &FilePath,
    theme: Theme,
    read: R,
    write: W,
) -> (r: Result<(), SaveError>)
    requires
        call_requires(read, ()),
        forall|text: String| #[trigger] call_requires(write, (text,)),
    ensures
        saved(path@, "theme"@, theme.name(), read, write, r),
{
    save_setting(path, "theme", theme.as_str(), read, write)
}

/// Keeps the answer to the close question in the file at `path`.
pub fn save_on_close<R: FnOnce() -> Existing, W: FnOnce(String) -> Result<(), String>>(
    path: &FilePath,
    on_close: OnClose,
    read: R,
    write: W,
) -> (r: Result<(), SaveError>)
    requires
        call_requires(read, ()),
        forall|text: String| #[trigger] call_requires(write, (text,)),
    ensures
        saved(path@, "on_close"@, on_close.name(), read, write, r),
{
    save_setting(path, "on_close", on_close.as_str(), read, write)
}

} // verus!
