//! The keys a hotkey can end in, and how they are spelled.
use vstd::prelude::*;

use crate::text::{self, spells};

verus! {

/// A key that is neither a letter nor a digit.
#[derive(Debug, Clone, Copy, PartialEq, Eq, Structural)]
pub enum Named {
    Space,
    Enter,
    Tab,
    Escape,
    Backspace,
    Delete,
    Insert,
    Home,
    End,
    PageUp,
    PageDown,
    ArrowUp,
    ArrowDown,
    ArrowLeft,
    ArrowRight,
    CapsLock,
    NumLock,
    ScrollLock,
    PrintScreen,
    Pause,
    Backquote,
    Backslash,
    BracketLeft,
    BracketRight,
    Comma,
    Equal,
    Minus,
    Period,
    Quote,
    Semicolon,
    Slash,
    F1,
    F2,
    F3,
    F4,
    F5,
    F6,
    F7,
    F8,
    F9,
    F10,
    F11,
    F12,
    F13,
    F14,
    F15,
    F16,
    F17,
    F18,
    F19,
    F20,
    F21,
    F22,
    F23,
    F24,
    Numpad0,
    Numpad1,
    Numpad2,
    Numpad3,
    Numpad4,
    Numpad5,
    Numpad6,
    Numpad7,
    Numpad8,
    Numpad9,
    NumpadAdd,
    NumpadSubtract,
    NumpadMultiply,
    NumpadDivide,
    NumpadDecimal,
    NumpadEnter,
    AudioVolumeUp,
    AudioVolumeDown,
    AudioVolumeMute,
    MediaPlayPause,
    MediaStop,
    MediaTrackNext,
    MediaTrackPrevious,
}

impl Named {
    /// The name of the key.
    pub open spec fn spelling(self) -> Seq<char> {
        match self {
            Named::Space => "Space"@,
            Named::Enter => "Enter"@,
            Named::Tab => "Tab"@,
            Named::Escape => "Escape"@,
            Named::Backspace => "Backspace"@,
            Named::Delete => "Delete"@,
            Named::Insert => "Insert"@,
            Named::Home => "Home"@,
            Named::End => "End"@,
            Named::PageUp => "PageUp"@,
            Named::PageDown => "PageDown"@,
            Named::ArrowUp => "ArrowUp"@,
            Named::ArrowDown => "ArrowDown"@,
            Named::ArrowLeft => "ArrowLeft"@,
            Named::ArrowRight => "ArrowRight"@,
            Named::CapsLock => "CapsLock"@,
            Named::NumLock => "NumLock"@,
            Named::ScrollLock => "ScrollLock"@,
            Named::PrintScreen => "PrintScreen"@,
            Named::Pause => "Pause"@,
            Named::Backquote => "Backquote"@,
            Named::Backslash => "Backslash"@,
            Named::BracketLeft => "BracketLeft"@,
            Named::BracketRight => "BracketRight"@,
            Named::Comma => "Comma"@,
            Named::Equal => "Equal"@,
            Named::Minus => "Minus"@,
            Named::Period => "Period"@,
            Named::Quote => "Quote"@,
            Named::Semicolon => "Semicolon"@,
            Named::Slash => "Slash"@,
            Named::F1 => "F1"@,
            Named::F2 => "F2"@,
            Named::F3 => "F3"@,
            Named::F4 => "F4"@,
            Named::F5 => "F5"@,
            Named::F6 => "F6"@,
            Named::F7 => "F7"@,
            Named::F8 => "F8"@,
            Named::F9 => "F9"@,
            Named::F10 => "F10"@,
            Named::F11 => "F11"@,
            Named::F12 => "F12"@,
            Named::F13 => "F13"@,
            Named::F14 => "F14"@,
            Named::F15 => "F15"@,
            Named::F16 => "F16"@,
            Named::F17 => "F17"@,
            Named::F18 => "F18"@,
            Named::F19 => "F19"@,
            Named::F20 => "F20"@,
            Named::F21 => "F21"@,
            Named::F22 => "F22"@,
            Named::F23 => "F23"@,
            Named::F24 => "F24"@,
            Named::Numpad0 => "Numpad0"@,
            Named::Numpad1 => "Numpad1"@,
            Named::Numpad2 => "Numpad2"@,
            Named::Numpad3 => "Numpad3"@,
            Named::Numpad4 => "Numpad4"@,
            Named::Numpad5 => "Numpad5"@,
            Named::Numpad6 => "Numpad6"@,
            Named::Numpad7 => "Numpad7"@,
            Named::Numpad8 => "Numpad8"@,
            Named::Numpad9 => "Numpad9"@,
            Named::NumpadAdd => "NumpadAdd"@,
            Named::NumpadSubtract => "NumpadSubtract"@,
            Named::NumpadMultiply => "NumpadMultiply"@,
            Named::NumpadDivide => "NumpadDivide"@,
            Named::NumpadDecimal => "NumpadDecimal"@,
            Named::NumpadEnter => "NumpadEnter"@,
            Named::AudioVolumeUp => "AudioVolumeUp"@,
            Named::AudioVolumeDown => "AudioVolumeDown"@,
            Named::AudioVolumeMute => "AudioVolumeMute"@,
            Named::MediaPlayPause => "MediaPlayPause"@,
            Named::MediaStop => "MediaStop"@,
            Named::MediaTrackNext => "MediaTrackNext"@,
            Named::MediaTrackPrevious => "MediaTrackPrevious"@,
        }
    }

    /// The name of the key in lower case.
    pub open spec fn low(self) -> Seq<char> {
        match self {
            Named::Space => "space"@,
            Named::Enter => "enter"@,
            Named::Tab => "tab"@,
            Named::Escape => "escape"@,
            Named::Backspace => "backspace"@,
            Named::Delete => "delete"@,
            Named::Insert => "insert"@,
            Named::Home => "home"@,
            Named::End => "end"@,
            Named::PageUp => "pageup"@,
            Named::PageDown => "pagedown"@,
            Named::ArrowUp => "arrowup"@,
            Named::ArrowDown => "arrowdown"@,
            Named::ArrowLeft => "arrowleft"@,
            Named::ArrowRight => "arrowright"@,
            Named::CapsLock => "capslock"@,
            Named::NumLock => "numlock"@,
            Named::ScrollLock => "scrolllock"@,
            Named::PrintScreen => "printscreen"@,
            Named::Pause => "pause"@,
            Named::Backquote => "backquote"@,
            Named::Backslash => "backslash"@,
            Named::BracketLeft => "bracketleft"@,
            Named::BracketRight => "bracketright"@,
            Named::Comma => "comma"@,
            Named::Equal => "equal"@,
            Named::Minus => "minus"@,
            Named::Period => "period"@,
            Named::Quote => "quote"@,
            Named::Semicolon => "semicolon"@,
            Named::Slash => "slash"@,
            Named::F1 => "f1"@,
            Named::F2 => "f2"@,
            Named::F3 => "f3"@,
            Named::F4 => "f4"@,
            Named::F5 => "f5"@,
            Named::F6 => "f6"@,
            Named::F7 => "f7"@,
            Named::F8 => "f8"@,
            Named::F9 => "f9"@,
            Named::F10 => "f10"@,
            Named::F11 => "f11"@,
            Named::F12 => "f12"@,
            Named::F13 => "f13"@,
            Named::F14 => "f14"@,
            Named::F15 => "f15"@,
            Named::F16 => "f16"@,
            Named::F17 => "f17"@,
            Named::F18 => "f18"@,
            Named::F19 => "f19"@,
            Named::F20 => "f20"@,
            Named::F21 => "f21"@,
            Named::F22 => "f22"@,
            Named::F23 => "f23"@,
            Named::F24 => "f24"@,
            Named::Numpad0 => "numpad0"@,
            Named::Numpad1 => "numpad1"@,
            Named::Numpad2 => "numpad2"@,
            Named::Numpad3 => "numpad3"@,
            Named::Numpad4 => "numpad4"@,
            Named::Numpad5 => "numpad5"@,
            Named::Numpad6 => "numpad6"@,
            Named::Numpad7 => "numpad7"@,
            Named::Numpad8 => "numpad8"@,
            Named::Numpad9 => "numpad9"@,
            Named::NumpadAdd => "numpadadd"@,
            Named::NumpadSubtract => "numpadsubtract"@,
            Named::NumpadMultiply => "numpadmultiply"@,
            Named::NumpadDivide => "numpaddivide"@,
            Named::NumpadDecimal => "numpaddecimal"@,
            Named::NumpadEnter => "numpadenter"@,
            Named::AudioVolumeUp => "audiovolumeup"@,
            Named::AudioVolumeDown => "audiovolumedown"@,
            Named::AudioVolumeMute => "audiovolumemute"@,
            Named::MediaPlayPause => "mediaplaypause"@,
            Named::MediaStop => "mediastop"@,
            Named::MediaTrackNext => "mediatracknext"@,
            Named::MediaTrackPrevious => "mediatrackprevious"@,
        }
    }

    /// The name of the key.
    pub fn name(self) -> (r: &'static str)
        ensures
            r@ == self.spelling(),
    {
        match self {
            Named::Space => "Space",
            Named::Enter => "Enter",
            Named::Tab => "Tab",
            Named::Escape => "Escape",
            Named::Backspace => "Backspace",
            Named::Delete => "Delete",
            Named::Insert => "Insert",
            Named::Home => "Home",
            Named::End => "End",
            Named::PageUp => "PageUp",
            Named::PageDown => "PageDown",
            Named::ArrowUp => "ArrowUp",
            Named::ArrowDown => "ArrowDown",
            Named::ArrowLeft => "ArrowLeft",
            Named::ArrowRight => "ArrowRight",
            Named::CapsLock => "CapsLock",
            Named::NumLock => "NumLock",
            Named::ScrollLock => "ScrollLock",
            Named::PrintScreen => "PrintScreen",
            Named::Pause => "Pause",
            Named::Backquote => "Backquote",
            Named::Backslash => "Backslash",
            Named::BracketLeft => "BracketLeft",
            Named::BracketRight => "BracketRight",
            Named::Comma => "Comma",
            Named::Equal => "Equal",
            Named::Minus => "Minus",
            Named::Period => "Period",
            Named::Quote => "Quote",
            Named::Semicolon => "Semicolon",
            Named::Slash => "Slash",
            Named::F1 => "F1",
            Named::F2 => "F2",
            Named::F3 => "F3",
            Named::F4 => "F4",
            Named::F5 => "F5",
            Named::F6 => "F6",
            Named::F7 => "F7",
            Named::F8 => "F8",
            Named::F9 => "F9",
            Named::F10 => "F10",
            Named::F11 => "F11",
            Named::F12 => "F12",
            Named::F13 => "F13",
            Named::F14 => "F14",
            Named::F15 => "F15",
            Named::F16 => "F16",
            Named::F17 => "F17",
            Named::F18 => "F18",
            Named::F19 => "F19",
            Named::F20 => "F20",
            Named::F21 => "F21",
            Named::F22 => "F22",
            Named::F23 => "F23",
            Named::F24 => "F24",
            Named::Numpad0 => "Numpad0",
            Named::Numpad1 => "Numpad1",
            Named::Numpad2 => "Numpad2",
            Named::Numpad3 => "Numpad3",
            Named::Numpad4 => "Numpad4",
            Named::Numpad5 => "Numpad5",
            Named::Numpad6 => "Numpad6",
            Named::Numpad7 => "Numpad7",
            Named::Numpad8 => "Numpad8",
            Named::Numpad9 => "Numpad9",
            Named::NumpadAdd => "NumpadAdd",
            Named::NumpadSubtract => "NumpadSubtract",
            Named::NumpadMultiply => "NumpadMultiply",
            Named::NumpadDivide => "NumpadDivide",
            Named::NumpadDecimal => "NumpadDecimal",
            Named::NumpadEnter => "NumpadEnter",
            Named::AudioVolumeUp => "AudioVolumeUp",
            Named::AudioVolumeDown => "AudioVolumeDown",
            Named::AudioVolumeMute => "AudioVolumeMute",
            Named::MediaPlayPause => "MediaPlayPause",
            Named::MediaStop => "MediaStop",
            Named::MediaTrackNext => "MediaTrackNext",
            Named::MediaTrackPrevious => "MediaTrackPrevious",
        }
    }
}

/// The key whose name in lower case is `t`.
pub open spec fn key_named(t: Seq<char>) -> Option<Named> {
    if t == Named::Space.low() {
        Some(Named::Space)
    } else if t == Named::Enter.low() {
        Some(Named::Enter)
    } else if t == Named::Tab.low() {
        Some(Named::Tab)
    } else if t == Named::Escape.low() {
        Some(Named::Escape)
    } else if t == Named::Backspace.low() {
        Some(Named::Backspace)
    } else if t == Named::Delete.low() {
        Some(Named::Delete)
    } else if t == Named::Insert.low() {
        Some(Named::Insert)
    } else if t == Named::Home.low() {
        Some(Named::Home)
    } else if t == Named::End.low() {
        Some(Named::End)
    } else if t == Named::PageUp.low() {
        Some(Named::PageUp)
    } else if t == Named::PageDown.low() {
        Some(Named::PageDown)
    } else if t == Named::ArrowUp.low() {
        Some(Named::ArrowUp)
    } else if t == Named::ArrowDown.low() {
        Some(Named::ArrowDown)
    } else if t == Named::ArrowLeft.low() {
        Some(Named::ArrowLeft)
    } else if t == Named::ArrowRight.low() {
        Some(Named::ArrowRight)
    } else if t == Named::CapsLock.low() {
        Some(Named::CapsLock)
    } else if t == Named::NumLock.low() {
        Some(Named::NumLock)
    } else if t == Named::ScrollLock.low() {
        Some(Named::ScrollLock)
    } else if t == Named::PrintScreen.low() {
        Some(Named::PrintScreen)
    } else if t == Named::Pause.low() {
        Some(Named::Pause)
    } else if t == Named::Backquote.low() {
        Some(Named::Backquote)
    } else if t == Named::Backslash.low() {
        Some(Named::Backslash)
    } else if t == Named::BracketLeft.low() {
        Some(Named::BracketLeft)
    } else if t == Named::BracketRight.low() {
        Some(Named::BracketRight)
    } else if t == Named::Comma.low() {
        Some(Named::Comma)
    } else if t == Named::Equal.low() {
        Some(Named::Equal)
    } else if t == Named::Minus.low() {
        Some(Named::Minus)
    } else if t == Named::Period.low() {
        Some(Named::Period)
    } else if t == Named::Quote.low() {
        Some(Named::Quote)
    } else if t == Named::Semicolon.low() {
        Some(Named::Semicolon)
    } else if t == Named::Slash.low() {
        Some(Named::Slash)
    } else if t == Named::F1.low() {
        Some(Named::F1)
    } else if t == Named::F2.low() {
        Some(Named::F2)
    } else if t == Named::F3.low() {
        Some(Named::F3)
    } else if t == Named::F4.low() {
        Some(Named::F4)
    } else if t == Named::F5.low() {
        Some(Named::F5)
    } else if t == Named::F6.low() {
        Some(Named::F6)
    } else if t == Named::F7.low() {
        Some(Named::F7)
    } else if t == Named::F8.low() {
        Some(Named::F8)
    } else if t == Named::F9.low() {
        Some(Named::F9)
    } else if t == Named::F10.low() {
        Some(Named::F10)
    } else if t == Named::F11.low() {
        Some(Named::F11)
    } else if t == Named::F12.low() {
        Some(Named::F12)
    } else if t == Named::F13.low() {
        Some(Named::F13)
    } else if t == Named::F14.low() {
        Some(Named::F14)
    } else if t == Named::F15.low() {
        Some(Named::F15)
    } else if t == Named::F16.low() {
        Some(Named::F16)
    } else if t == Named::F17.low() {
        Some(Named::F17)
    } else if t == Named::F18.low() {
        Some(Named::F18)
    } else if t == Named::F19.low() {
        Some(Named::F19)
    } else if t == Named::F20.low() {
        Some(Named::F20)
    } else if t == Named::F21.low() {
        Some(Named::F21)
    } else if t == Named::F22.low() {
        Some(Named::F22)
    } else if t == Named::F23.low() {
        Some(Named::F23)
    } else if t == Named::F24.low() {
        Some(Named::F24)
    } else if t == Named::Numpad0.low() {
        Some(Named::Numpad0)
    } else if t == Named::Numpad1.low() {
        Some(Named::Numpad1)
    } else if t == Named::Numpad2.low() {
        Some(Named::Numpad2)
    } else if t == Named::Numpad3.low() {
        Some(Named::Numpad3)
    } else if t == Named::Numpad4.low() {
        Some(Named::Numpad4)
    } else if t == Named::Numpad5.low() {
        Some(Named::Numpad5)
    } else if t == Named::Numpad6.low() {
        Some(Named::Numpad6)
    } else if t == Named::Numpad7.low() {
        Some(Named::Numpad7)
    } else if t == Named::Numpad8.low() {
        Some(Named::Numpad8)
    } else if t == Named::Numpad9.low() {
        Some(Named::Numpad9)
    } else if t == Named::NumpadAdd.low() {
        Some(Named::NumpadAdd)
    } else if t == Named::NumpadSubtract.low() {
        Some(Named::NumpadSubtract)
    } else if t == Named::NumpadMultiply.low() {
        Some(Named::NumpadMultiply)
    } else if t == Named::NumpadDivide.low() {
        Some(Named::NumpadDivide)
    } else if t == Named::NumpadDecimal.low() {
        Some(Named::NumpadDecimal)
    } else if t == Named::NumpadEnter.low() {
        Some(Named::NumpadEnter)
    } else if t == Named::AudioVolumeUp.low() {
        Some(Named::AudioVolumeUp)
    } else if t == Named::AudioVolumeDown.low() {
        Some(Named::AudioVolumeDown)
    } else if t == Named::AudioVolumeMute.low() {
        Some(Named::AudioVolumeMute)
    } else if t == Named::MediaPlayPause.low() {
        Some(Named::MediaPlayPause)
    } else if t == Named::MediaStop.low() {
        Some(Named::MediaStop)
    } else if t == Named::MediaTrackNext.low() {
        Some(Named::MediaTrackNext)
    } else if t == Named::MediaTrackPrevious.low() {
        Some(Named::MediaTrackPrevious)
    } else {
        None
    }
}

/// The key whose name in lower case is `t`.
pub fn find_named(t: &[char]) -> (r: Option<Named>)
    ensures
        r == key_named(t@),
{
    if spells(t, "space") {
        Some(Named::Space)
    } else if spells(t, "enter") {
        Some(Named::Enter)
    } else if spells(t, "tab") {
        Some(Named::Tab)
    } else if spells(t, "escape") {
        Some(Named::Escape)
    } else if spells(t, "backspace") {
        Some(Named::Backspace)
    } else if spells(t, "delete") {
        Some(Named::Delete)
    } else if spells(t, "insert") {
        Some(Named::Insert)
    } else if spells(t, "home") {
        Some(Named::Home)
    } else if spells(t, "end") {
        Some(Named::End)
    } else if spells(t, "pageup") {
        Some(Named::PageUp)
    } else if spells(t, "pagedown") {
        Some(Named::PageDown)
    } else if spells(t, "arrowup") {
        Some(Named::ArrowUp)
    } else if spells(t, "arrowdown") {
        Some(Named::ArrowDown)
    } else if spells(t, "arrowleft") {
        Some(Named::ArrowLeft)
    } else if spells(t, "arrowright") {
        Some(Named::ArrowRight)
    } else if spells(t, "capslock") {
        Some(Named::CapsLock)
    } else if spells(t, "numlock") {
        Some(Named::NumLock)
    } else if spells(t, "scrolllock") {
        Some(Named::ScrollLock)
    } else if spells(t, "printscreen") {
        Some(Named::PrintScreen)
    } else if spells(t, "pause") {
        Some(Named::Pause)
    } else if spells(t, "backquote") {
        Some(Named::Backquote)
    } else if spells(t, "backslash") {
        Some(Named::Backslash)
    } else if spells(t, "bracketleft") {
        Some(Named::BracketLeft)
    } else if spells(t, "bracketright") {
        Some(Named::BracketRight)
    } else if spells(t, "comma") {
        Some(Named::Comma)
    } else if spells(t, "equal") {
        Some(Named::Equal)
    } else if spells(t, "minus") {
        Some(Named::Minus)
    } else if spells(t, "period") {
        Some(Named::Period)
    } else if spells(t, "quote") {
        Some(Named::Quote)
    } else if spells(t, "semicolon") {
        Some(Named::Semicolon)
    } else if spells(t, "slash") {
        Some(Named::Slash)
    } else if spells(t, "f1") {
        Some(Named::F1)
    } else if spells(t, "f2") {
        Some(Named::F2)
    } else if spells(t, "f3") {
        Some(Named::F3)
    } else if spells(t, "f4") {
        Some(Named::F4)
    } else if spells(t, "f5") {
        Some(Named::F5)
    } else if spells(t, "f6") {
        Some(Named::F6)
    } else if spells(t, "f7") {
        Some(Named::F7)
    } else if spells(t, "f8") {
        Some(Named::F8)
    } else if spells(t, "f9") {
        Some(Named::F9)
    } else if spells(t, "f10") {
        Some(Named::F10)
    } else if spells(t, "f11") {
        Some(Named::F11)
    } else if spells(t, "f12") {
        Some(Named::F12)
    } else if spells(t, "f13") {
        Some(Named::F13)
    } else if spells(t, "f14") {
        Some(Named::F14)
    } else if spells(t, "f15") {
        Some(Named::F15)
    } else if spells(t, "f16") {
        Some(Named::F16)
    } else if spells(t, "f17") {
        Some(Named::F17)
    } else if spells(t, "f18") {
        Some(Named::F18)
    } else if spells(t, "f19") {
        Some(Named::F19)
    } else if spells(t, "f20") {
        Some(Named::F20)
    } else if spells(t, "f21") {
        Some(Named::F21)
    } else if spells(t, "f22") {
        Some(Named::F22)
    } else if spells(t, "f23") {
        Some(Named::F23)
    } else if spells(t, "f24") {
        Some(Named::F24)
    } else if spells(t, "numpad0") {
        Some(Named::Numpad0)
    } else if spells(t, "numpad1") {
        Some(Named::Numpad1)
    } else if spells(t, "numpad2") {
        Some(Named::Numpad2)
    } else if spells(t, "numpad3") {
        Some(Named::Numpad3)
    } else if spells(t, "numpad4") {
        Some(Named::Numpad4)
    } else if spells(t, "numpad5") {
        Some(Named::Numpad5)
    } else if spells(t, "numpad6") {
        Some(Named::Numpad6)
    } else if spells(t, "numpad7") {
        Some(Named::Numpad7)
    } else if spells(t, "numpad8") {
        Some(Named::Numpad8)
    } else if spells(t, "numpad9") {
        Some(Named::Numpad9)
    } else if spells(t, "numpadadd") {
        Some(Named::NumpadAdd)
    } else if spells(t, "numpadsubtract") {
        Some(Named::NumpadSubtract)
    } else if spells(t, "numpadmultiply") {
        Some(Named::NumpadMultiply)
    } else if spells(t, "numpaddivide") {
        Some(Named::NumpadDivide)
    } else if spells(t, "numpaddecimal") {
        Some(Named::NumpadDecimal)
    } else if spells(t, "numpadenter") {
        Some(Named::NumpadEnter)
    } else if spells(t, "audiovolumeup") {
        Some(Named::AudioVolumeUp)
    } else if spells(t, "audiovolumedown") {
        Some(Named::AudioVolumeDown)
    } else if spells(t, "audiovolumemute") {
        Some(Named::AudioVolumeMute)
    } else if spells(t, "mediaplaypause") {
        Some(Named::MediaPlayPause)
    } else if spells(t, "mediastop") {
        Some(Named::MediaStop)
    } else if spells(t, "mediatracknext") {
        Some(Named::MediaTrackNext)
    } else if spells(t, "mediatrackprevious") {
        Some(Named::MediaTrackPrevious)
    } else {
        None
    }
}

/// The key that the short form `t` stands for.
pub open spec fn key_aliased(t: Seq<char>) -> Option<Named> {
    if t == "esc"@ {
        Some(Named::Escape)
    } else if t == "return"@ {
        Some(Named::Enter)
    } else if t == "up"@ {
        Some(Named::ArrowUp)
    } else if t == "down"@ {
        Some(Named::ArrowDown)
    } else if t == "left"@ {
        Some(Named::ArrowLeft)
    } else if t == "right"@ {
        Some(Named::ArrowRight)
    } else if t == "pgup"@ {
        Some(Named::PageUp)
    } else if t == "pgdn"@ {
        Some(Named::PageDown)
    } else if t == "ins"@ {
        Some(Named::Insert)
    } else if t == "del"@ {
        Some(Named::Delete)
    } else if t == "spacebar"@ {
        Some(Named::Space)
    } else if t == "`"@ {
        Some(Named::Backquote)
    } else if t == "\\"@ {
        Some(Named::Backslash)
    } else if t == "["@ {
        Some(Named::BracketLeft)
    } else if t == "]"@ {
        Some(Named::BracketRight)
    } else if t == ","@ {
        Some(Named::Comma)
    } else if t == "="@ {
        Some(Named::Equal)
    } else if t == "-"@ {
        Some(Named::Minus)
    } else if t == "."@ {
        Some(Named::Period)
    } else if t == "'"@ {
        Some(Named::Quote)
    } else if t == ";"@ {
        Some(Named::Semicolon)
    } else if t == "/"@ {
        Some(Named::Slash)
    } else {
        None
    }
}

/// The key that the short form `t` stands for.
pub fn find_alias(t: &[char]) -> (r: Option<Named>)
    ensures
        r == key_aliased(t@),
{
    if spells(t, "esc") {
        Some(Named::Escape)
    } else if spells(t, "return") {
        Some(Named::Enter)
    } else if spells(t, "up") {
        Some(Named::ArrowUp)
    } else if spells(t, "down") {
        Some(Named::ArrowDown)
    } else if spells(t, "left") {
        Some(Named::ArrowLeft)
    } else if spells(t, "right") {
        Some(Named::ArrowRight)
    } else if spells(t, "pgup") {
        Some(Named::PageUp)
    } else if spells(t, "pgdn") {
        Some(Named::PageDown)
    } else if spells(t, "ins") {
        Some(Named::Insert)
    } else if spells(t, "del") {
        Some(Named::Delete)
    } else if spells(t, "spacebar") {
        Some(Named::Space)
    } else if spells(t, "`") {
        Some(Named::Backquote)
    } else if spells(t, "\\") {
        Some(Named::Backslash)
    } else if spells(t, "[") {
        Some(Named::BracketLeft)
    } else if spells(t, "]") {
        Some(Named::BracketRight)
    } else if spells(t, ",") {
        Some(Named::Comma)
    } else if spells(t, "=") {
        Some(Named::Equal)
    } else if spells(t, "-") {
        Some(Named::Minus)
    } else if spells(t, ".") {
        Some(Named::Period)
    } else if spells(t, "'") {
        Some(Named::Quote)
    } else if spells(t, ";") {
        Some(Named::Semicolon)
    } else if spells(t, "/") {
        Some(Named::Slash)
    } else {
        None
    }
}

/// The names in lower case, letter by letter.
spec fn low_spelled(k: Named) -> Seq<char> {
    match k {
        Named::Space => seq!['s', 'p', 'a', 'c', 'e'],
        Named::Enter => seq!['e', 'n', 't', 'e', 'r'],
        Named::Tab => seq!['t', 'a', 'b'],
        Named::Escape => seq!['e', 's', 'c', 'a', 'p', 'e'],
        Named::Backspace => seq!['b', 'a', 'c', 'k', 's', 'p', 'a', 'c', 'e'],
        Named::Delete => seq!['d', 'e', 'l', 'e', 't', 'e'],
        Named::Insert => seq!['i', 'n', 's', 'e', 'r', 't'],
        Named::Home => seq!['h', 'o', 'm', 'e'],
        Named::End => seq!['e', 'n', 'd'],
        Named::PageUp => seq!['p', 'a', 'g', 'e', 'u', 'p'],
        Named::PageDown => seq!['p', 'a', 'g', 'e', 'd', 'o', 'w', 'n'],
        Named::ArrowUp => seq!['a', 'r', 'r', 'o', 'w', 'u', 'p'],
        Named::ArrowDown => seq!['a', 'r', 'r', 'o', 'w', 'd', 'o', 'w', 'n'],
        Named::ArrowLeft => seq!['a', 'r', 'r', 'o', 'w', 'l', 'e', 'f', 't'],
        Named::ArrowRight => seq!['a', 'r', 'r', 'o', 'w', 'r', 'i', 'g', 'h', 't'],
        Named::CapsLock => seq!['c', 'a', 'p', 's', 'l', 'o', 'c', 'k'],
        Named::NumLock => seq!['n', 'u', 'm', 'l', 'o', 'c', 'k'],
        Named::ScrollLock => seq!['s', 'c', 'r', 'o', 'l', 'l', 'l', 'o', 'c', 'k'],
        Named::PrintScreen => seq!['p', 'r', 'i', 'n', 't', 's', 'c', 'r', 'e', 'e', 'n'],
        Named::Pause => seq!['p', 'a', 'u', 's', 'e'],
        Named::Backquote => seq!['b', 'a', 'c', 'k', 'q', 'u', 'o', 't', 'e'],
        Named::Backslash => seq!['b', 'a', 'c', 'k', 's', 'l', 'a', 's', 'h'],
        Named::BracketLeft => seq!['b', 'r', 'a', 'c', 'k', 'e', 't', 'l', 'e', 'f', 't'],
        Named::BracketRight => seq!['b', 'r', 'a', 'c', 'k', 'e', 't', 'r', 'i', 'g', 'h', 't'],
        Named::Comma => seq!['c', 'o', 'm', 'm', 'a'],
        Named::Equal => seq!['e', 'q', 'u', 'a', 'l'],
        Named::Minus => seq!['m', 'i', 'n', 'u', 's'],
        Named::Period => seq!['p', 'e', 'r', 'i', 'o', 'd'],
        Named::Quote => seq!['q', 'u', 'o', 't', 'e'],
        Named::Semicolon => seq!['s', 'e', 'm', 'i', 'c', 'o', 'l', 'o', 'n'],
        Named::Slash => seq!['s', 'l', 'a', 's', 'h'],
        Named::F1 => seq!['f', '1'],
        Named::F2 => seq!['f', '2'],
        Named::F3 => seq!['f', '3'],
        Named::F4 => seq!['f', '4'],
        Named::F5 => seq!['f', '5'],
        Named::F6 => seq!['f', '6'],
        Named::F7 => seq!['f', '7'],
        Named::F8 => seq!['f', '8'],
        Named::F9 => seq!['f', '9'],
        Named::F10 => seq!['f', '1', '0'],
        Named::F11 => seq!['f', '1', '1'],
        Named::F12 => seq!['f', '1', '2'],
        Named::F13 => seq!['f', '1', '3'],
        Named::F14 => seq!['f', '1', '4'],
        Named::F15 => seq!['f', '1', '5'],
        Named::F16 => seq!['f', '1', '6'],
        Named::F17 => seq!['f', '1', '7'],
        Named::F18 => seq!['f', '1', '8'],
        Named::F19 => seq!['f', '1', '9'],
        Named::F20 => seq!['f', '2', '0'],
        Named::F21 => seq!['f', '2', '1'],
        Named::F22 => seq!['f', '2', '2'],
        Named::F23 => seq!['f', '2', '3'],
        Named::F24 => seq!['f', '2', '4'],
        Named::Numpad0 => seq!['n', 'u', 'm', 'p', 'a', 'd', '0'],
        Named::Numpad1 => seq!['n', 'u', 'm', 'p', 'a', 'd', '1'],
        Named::Numpad2 => seq!['n', 'u', 'm', 'p', 'a', 'd', '2'],
        Named::Numpad3 => seq!['n', 'u', 'm', 'p', 'a', 'd', '3'],
        Named::Numpad4 => seq!['n', 'u', 'm', 'p', 'a', 'd', '4'],
        Named::Numpad5 => seq!['n', 'u', 'm', 'p', 'a', 'd', '5'],
        Named::Numpad6 => seq!['n', 'u', 'm', 'p', 'a', 'd', '6'],
        Named::Numpad7 => seq!['n', 'u', 'm', 'p', 'a', 'd', '7'],
        Named::Numpad8 => seq!['n', 'u', 'm', 'p', 'a', 'd', '8'],
        Named::Numpad9 => seq!['n', 'u', 'm', 'p', 'a', 'd', '9'],
        Named::NumpadAdd => seq!['n', 'u', 'm', 'p', 'a', 'd', 'a', 'd', 'd'],
        Named::NumpadSubtract => seq!['n', 'u', 'm', 'p', 'a', 'd', 's', 'u', 'b', 't', 'r', 'a', 'c', 't'],
        Named::NumpadMultiply => seq!['n', 'u', 'm', 'p', 'a', 'd', 'm', 'u', 'l', 't', 'i', 'p', 'l', 'y'],
        Named::NumpadDivide => seq!['n', 'u', 'm', 'p', 'a', 'd', 'd', 'i', 'v', 'i', 'd', 'e'],
        Named::NumpadDecimal => seq!['n', 'u', 'm', 'p', 'a', 'd', 'd', 'e', 'c', 'i', 'm', 'a', 'l'],
        Named::NumpadEnter => seq!['n', 'u', 'm', 'p', 'a', 'd', 'e', 'n', 't', 'e', 'r'],
        Named::AudioVolumeUp => seq!['a', 'u', 'd', 'i', 'o', 'v', 'o', 'l', 'u', 'm', 'e', 'u', 'p'],
        Named::AudioVolumeDown => seq!['a', 'u', 'd', 'i', 'o', 'v', 'o', 'l', 'u', 'm', 'e', 'd', 'o', 'w', 'n'],
        Named::AudioVolumeMute => seq!['a', 'u', 'd', 'i', 'o', 'v', 'o', 'l', 'u', 'm', 'e', 'm', 'u', 't', 'e'],
        Named::MediaPlayPause => seq!['m', 'e', 'd', 'i', 'a', 'p', 'l', 'a', 'y', 'p', 'a', 'u', 's', 'e'],
        Named::MediaStop => seq!['m', 'e', 'd', 'i', 'a', 's', 't', 'o', 'p'],
        Named::MediaTrackNext => seq!['m', 'e', 'd', 'i', 'a', 't', 'r', 'a', 'c', 'k', 'n', 'e', 'x', 't'],
        Named::MediaTrackPrevious => seq!['m', 'e', 'd', 'i', 'a', 't', 'r', 'a', 'c', 'k', 'p', 'r', 'e', 'v', 'i', 'o', 'u', 's'],
    }
}

proof fn lemma_low_spelled(k: Named)
    ensures
        k.low() == low_spelled(k),
{
    reveal_strlit("space");
    reveal_strlit("enter");
    reveal_strlit("tab");
    reveal_strlit("escape");
    reveal_strlit("backspace");
    reveal_strlit("delete");
    reveal_strlit("insert");
    reveal_strlit("home");
    reveal_strlit("end");
    reveal_strlit("pageup");
    reveal_strlit("pagedown");
    reveal_strlit("arrowup");
    reveal_strlit("arrowdown");
    reveal_strlit("arrowleft");
    reveal_strlit("arrowright");
    reveal_strlit("capslock");
    reveal_strlit("numlock");
    reveal_strlit("scrolllock");
    reveal_strlit("printscreen");
    reveal_strlit("pause");
    reveal_strlit("backquote");
    reveal_strlit("backslash");
    reveal_strlit("bracketleft");
    reveal_strlit("bracketright");
    reveal_strlit("comma");
    reveal_strlit("equal");
    reveal_strlit("minus");
    reveal_strlit("period");
    reveal_strlit("quote");
    reveal_strlit("semicolon");
    reveal_strlit("slash");
    reveal_strlit("f1");
    reveal_strlit("f2");
    reveal_strlit("f3");
    reveal_strlit("f4");
    reveal_strlit("f5");
    reveal_strlit("f6");
    reveal_strlit("f7");
    reveal_strlit("f8");
    reveal_strlit("f9");
    reveal_strlit("f10");
    reveal_strlit("f11");
    reveal_strlit("f12");
    reveal_strlit("f13");
    reveal_strlit("f14");
    reveal_strlit("f15");
    reveal_strlit("f16");
    reveal_strlit("f17");
    reveal_strlit("f18");
    reveal_strlit("f19");
    reveal_strlit("f20");
    reveal_strlit("f21");
    reveal_strlit("f22");
    reveal_strlit("f23");
    reveal_strlit("f24");
    reveal_strlit("numpad0");
    reveal_strlit("numpad1");
    reveal_strlit("numpad2");
    reveal_strlit("numpad3");
    reveal_strlit("numpad4");
    reveal_strlit("numpad5");
    reveal_strlit("numpad6");
    reveal_strlit("numpad7");
    reveal_strlit("numpad8");
    reveal_strlit("numpad9");
    reveal_strlit("numpadadd");
    reveal_strlit("numpadsubtract");
    reveal_strlit("numpadmultiply");
    reveal_strlit("numpaddivide");
    reveal_strlit("numpaddecimal");
    reveal_strlit("numpadenter");
    reveal_strlit("audiovolumeup");
    reveal_strlit("audiovolumedown");
    reveal_strlit("audiovolumemute");
    reveal_strlit("mediaplaypause");
    reveal_strlit("mediastop");
    reveal_strlit("mediatracknext");
    reveal_strlit("mediatrackprevious");
    assert(k.low() =~= low_spelled(k));
}

proof fn lemma_low_is_lower(k: Named)
    ensures
        text::lower(k.spelling()) == k.low(),
{
    reveal_strlit("Space");
    reveal_strlit("Enter");
    reveal_strlit("Tab");
    reveal_strlit("Escape");
    reveal_strlit("Backspace");
    reveal_strlit("Delete");
    reveal_strlit("Insert");
    reveal_strlit("Home");
    reveal_strlit("End");
    reveal_strlit("PageUp");
    reveal_strlit("PageDown");
    reveal_strlit("ArrowUp");
    reveal_strlit("ArrowDown");
    reveal_strlit("ArrowLeft");
    reveal_strlit("ArrowRight");
    reveal_strlit("CapsLock");
    reveal_strlit("NumLock");
    reveal_strlit("ScrollLock");
    reveal_strlit("PrintScreen");
    reveal_strlit("Pause");
    reveal_strlit("Backquote");
    reveal_strlit("Backslash");
    reveal_strlit("BracketLeft");
    reveal_strlit("BracketRight");
    reveal_strlit("Comma");
    reveal_strlit("Equal");
    reveal_strlit("Minus");
    reveal_strlit("Period");
    reveal_strlit("Quote");
    reveal_strlit("Semicolon");
    reveal_strlit("Slash");
    reveal_strlit("F1");
    reveal_strlit("F2");
    reveal_strlit("F3");
    reveal_strlit("F4");
    reveal_strlit("F5");
    reveal_strlit("F6");
    reveal_strlit("F7");
    reveal_strlit("F8");
    reveal_strlit("F9");
    reveal_strlit("F10");
    reveal_strlit("F11");
    reveal_strlit("F12");
    reveal_strlit("F13");
    reveal_strlit("F14");
    reveal_strlit("F15");
    reveal_strlit("F16");
    reveal_strlit("F17");
    reveal_strlit("F18");
    reveal_strlit("F19");
    reveal_strlit("F20");
    reveal_strlit("F21");
    reveal_strlit("F22");
    reveal_strlit("F23");
    reveal_strlit("F24");
    reveal_strlit("Numpad0");
    reveal_strlit("Numpad1");
    reveal_strlit("Numpad2");
    reveal_strlit("Numpad3");
    reveal_strlit("Numpad4");
    reveal_strlit("Numpad5");
    reveal_strlit("Numpad6");
    reveal_strlit("Numpad7");
    reveal_strlit("Numpad8");
    reveal_strlit("Numpad9");
    reveal_strlit("NumpadAdd");
    reveal_strlit("NumpadSubtract");
    reveal_strlit("NumpadMultiply");
    reveal_strlit("NumpadDivide");
    reveal_strlit("NumpadDecimal");
    reveal_strlit("NumpadEnter");
    reveal_strlit("AudioVolumeUp");
    reveal_strlit("AudioVolumeDown");
    reveal_strlit("AudioVolumeMute");
    reveal_strlit("MediaPlayPause");
    reveal_strlit("MediaStop");
    reveal_strlit("MediaTrackNext");
    reveal_strlit("MediaTrackPrevious");
    lemma_low_spelled(k);
    assert(text::lower(k.spelling()) =~= low_spelled(k));
}

/// A number that tells the names apart: how long each is, how it starts and how
/// it ends.
spec fn mark(t: Seq<char>) -> int {
    ((t.len() * 1000 + t[0] as int) * 1000 + t.last() as int) * 1000 + t[t.len() - 2] as int
}

/// The number of each name.
spec fn number(k: Named) -> int {
    match k {
        Named::Space => 5115101099,
        Named::Enter => 5101114101,
        Named::Tab => 3116098097,
        Named::Escape => 6101101112,
        Named::Backspace => 9098101099,
        Named::Delete => 6100101116,
        Named::Insert => 6105116114,
        Named::Home => 4104101109,
        Named::End => 3101100110,
        Named::PageUp => 6112112117,
        Named::PageDown => 8112110119,
        Named::ArrowUp => 7097112117,
        Named::ArrowDown => 9097110119,
        Named::ArrowLeft => 9097116102,
        Named::ArrowRight => 10097116104,
        Named::CapsLock => 8099107099,
        Named::NumLock => 7110107099,
        Named::ScrollLock => 10115107099,
        Named::PrintScreen => 11112110101,
        Named::Pause => 5112101115,
        Named::Backquote => 9098101116,
        Named::Backslash => 9098104115,
        Named::BracketLeft => 11098116102,
        Named::BracketRight => 12098116104,
        Named::Comma => 5099097109,
        Named::Equal => 5101108097,
        Named::Minus => 5109115117,
        Named::Period => 6112100111,
        Named::Quote => 5113101116,
        Named::Semicolon => 9115110111,
        Named::Slash => 5115104115,
        Named::F1 => 2102049102,
        Named::F2 => 2102050102,
        Named::F3 => 2102051102,
        Named::F4 => 2102052102,
        Named::F5 => 2102053102,
        Named::F6 => 2102054102,
        Named::F7 => 2102055102,
        Named::F8 => 2102056102,
        Named::F9 => 2102057102,
        Named::F10 => 3102048049,
        Named::F11 => 3102049049,
        Named::F12 => 3102050049,
        Named::F13 => 3102051049,
        Named::F14 => 3102052049,
        Named::F15 => 3102053049,
        Named::F16 => 3102054049,
        Named::F17 => 3102055049,
        Named::F18 => 3102056049,
        Named::F19 => 3102057049,
        Named::F20 => 3102048050,
        Named::F21 => 3102049050,
        Named::F22 => 3102050050,
        Named::F23 => 3102051050,
        Named::F24 => 3102052050,
        Named::Numpad0 => 7110048100,
        Named::Numpad1 => 7110049100,
        Named::Numpad2 => 7110050100,
        Named::Numpad3 => 7110051100,
        Named::Numpad4 => 7110052100,
        Named::Numpad5 => 7110053100,
        Named::Numpad6 => 7110054100,
        Named::Numpad7 => 7110055100,
        Named::Numpad8 => 7110056100,
        Named::Numpad9 => 7110057100,
        Named::NumpadAdd => 9110100100,
        Named::NumpadSubtract => 14110116099,
        Named::NumpadMultiply => 14110121108,
        Named::NumpadDivide => 12110101100,
        Named::NumpadDecimal => 13110108097,
        Named::NumpadEnter => 11110114101,
        Named::AudioVolumeUp => 13097112117,
        Named::AudioVolumeDown => 15097110119,
        Named::AudioVolumeMute => 15097101116,
        Named::MediaPlayPause => 14109101115,
        Named::MediaStop => 9109112111,
        Named::MediaTrackNext => 14109116120,
        Named::MediaTrackPrevious => 18109115117,
    }
}

proof fn lemma_number(k: Named)
    ensures
        mark(k.low()) == number(k),
{
    lemma_low_spelled(k);
}

/// No two keys have the same name.
proof fn lemma_distinct(j: Named, k: Named)
    requires
        j.low() == k.low(),
    ensures
        j == k,
{
    lemma_number(j);
    lemma_number(k);
}

/// The names are made of letters and digits, two at least, and none is taken for
/// a letter key or a digit key.
pub proof fn lemma_names_are_plain(k: Named)
    ensures
        k.low() == text::lower(k.spelling()),
        k.spelling().len() >= 2,
        forall|i: int|
            0 <= i < k.low().len() ==> 'a' <= #[trigger] k.low()[i] <= 'z' || '0' <= k.low()[i]
                <= '9',
        !text::starts(k.low(), "key"@),
        !text::starts(k.low(), "digit"@),
{
    lemma_low_is_lower(k);
    lemma_low_spelled(k);
    reveal_strlit("key");
    reveal_strlit("digit");
    let t = k.low();
    assert(text::lower(k.spelling()).len() == k.spelling().len());
    assert(t[0] != 'k' && (t[0] == 'd' ==> t[1] == 'e'));
    if text::starts(t, "key"@) {
        assert(t.subrange(0, 3)[0] == "key"@[0]);
    }
    if text::starts(t, "digit"@) {
        assert(t.subrange(0, 5)[0] == "digit"@[0]);
        assert(t.subrange(0, 5)[1] == "digit"@[1]);
    }
}

/// Every key is found by its name, in whatever case.
pub proof fn law_every_key_is_found_by_its_name(k: Named)
    ensures
        key_named(text::lower(k.spelling())) == Some(k),
{
    lemma_low_is_lower(k);
    assert forall|j: Named| #[trigger] j.low() == k.low() implies j == k by {
        lemma_distinct(j, k);
    }
}

} // verus!
