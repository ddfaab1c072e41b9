//! Key codes and modifier sets as plain values, with the names under which
//! keys are shown to users.
use vstd::prelude::*;

use crate::text::{decimal, lower};

verus! {

/// A media key.
#[derive(Debug, Clone, Copy, PartialEq, Eq, Hash, Structural)]
pub enum MediaKeyCode {
    Play,
    Pause,
    PlayPause,
    Reverse,
    Stop,
    FastForward,
    Rewind,
    TrackNext,
    TrackPrevious,
    Record,
    LowerVolume,
    RaiseVolume,
    MuteVolume,
}

/// A modifier key pressed on its own.
#[derive(Debug, Clone, Copy, PartialEq, Eq, Hash, Structural)]
pub enum ModifierKeyCode {
    LeftShift,
    LeftControl,
    LeftAlt,
    LeftSuper,
    LeftHyper,
    LeftMeta,
    RightShift,
    RightControl,
    RightAlt,
    RightSuper,
    RightHyper,
    RightMeta,
    IsoLevel3Shift,
    IsoLevel5Shift,
}

/// A key.
#[derive(Debug, Clone, Copy, PartialEq, Eq, Hash, Structural)]
pub enum KeyCode {
    Backspace,
    Enter,
    Left,
    Right,
    Up,
    Down,
    Home,
    End,
    PageUp,
    PageDown,
    Tab,
    /// Shift + Tab.
    BackTab,
    Delete,
    Insert,
    /// A function key, `F(1)` being F1.
    F(u8),
    /// A character key.
    Char(char),
    Null,
    Esc,
    CapsLock,
    ScrollLock,
    NumLock,
    PrintScreen,
    Pause,
    Menu,
    KeypadBegin,
    Media(MediaKeyCode),
    Modifier(ModifierKeyCode),
}

/// A set of modifier keys, one bit each (see the `*_BIT` constants).
#[derive(Debug, Clone, Copy, PartialEq, Eq, Hash, Structural)]
pub struct KeyModifiers {
    pub bits: u8,
}

/// Bit of the Shift modifier.
pub const SHIFT_BIT: u8 = 1;

/// Bit of the Control modifier.
pub const CONTROL_BIT: u8 = 2;

/// Bit of the Alt modifier.
pub const ALT_BIT: u8 = 4;

/// Bit of the Super modifier.
pub const SUPER_BIT: u8 = 8;

/// Bit of the Hyper modifier.
pub const HYPER_BIT: u8 = 16;

/// Bit of the Meta modifier.
pub const META_BIT: u8 = 32;

impl KeyModifiers {
    /// Every modifier of `other` is in the set.
    pub open spec fn has(&self, other: KeyModifiers) -> bool {
        self.bits & other.bits == other.bits
    }

    /// No modifier.
    pub fn none() -> (r: Self)
        ensures
            r.bits == 0,
    {
        KeyModifiers { bits: 0 }
    }

    /// Shift alone.
    pub fn shift() -> (r: Self)
        ensures
            r.bits == SHIFT_BIT,
    {
        KeyModifiers { bits: SHIFT_BIT }
    }

    /// Control alone.
    pub fn control() -> (r: Self)
        ensures
            r.bits == CONTROL_BIT,
    {
        KeyModifiers { bits: CONTROL_BIT }
    }

    /// Alt alone.
    pub fn alt() -> (r: Self)
        ensures
            r.bits == ALT_BIT,
    {
        KeyModifiers { bits: ALT_BIT }
    }

    /// The modifiers of both sets.
    pub fn union(self, other: KeyModifiers) -> (r: Self)
        ensures
            r.bits == self.bits | other.bits,
    {
        KeyModifiers { bits: self.bits | other.bits }
    }

    /// Whether every modifier of `other` is in the set.
    pub fn contains(&self, other: KeyModifiers) -> (r: bool)
        ensures
            r == self.has(other),
    {
        self.bits & other.bits == other.bits
    }
}

/// The Control modifier is in `m`.
pub open spec fn has_ctrl(m: KeyModifiers) -> bool {
    m.has(KeyModifiers { bits: CONTROL_BIT })
}

/// The Alt modifier is in `m`.
pub open spec fn has_alt(m: KeyModifiers) -> bool {
    m.has(KeyModifiers { bits: ALT_BIT })
}

/// The Shift modifier is in `m`.
pub open spec fn has_shift(m: KeyModifiers) -> bool {
    m.has(KeyModifiers { bits: SHIFT_BIT })
}

/// The variant name of a media key.
pub open spec fn media_name(m: MediaKeyCode) -> Seq<char> {
    match m {
        MediaKeyCode::Play => "Play"@,
        MediaKeyCode::Pause => "Pause"@,
        MediaKeyCode::PlayPause => "PlayPause"@,
        MediaKeyCode::Reverse => "Reverse"@,
        MediaKeyCode::Stop => "Stop"@,
        MediaKeyCode::FastForward => "FastForward"@,
        MediaKeyCode::Rewind => "Rewind"@,
        MediaKeyCode::TrackNext => "TrackNext"@,
        MediaKeyCode::TrackPrevious => "TrackPrevious"@,
        MediaKeyCode::Record => "Record"@,
        MediaKeyCode::LowerVolume => "LowerVolume"@,
        MediaKeyCode::RaiseVolume => "RaiseVolume"@,
        MediaKeyCode::MuteVolume => "MuteVolume"@,
    }
}

/// The variant name of a modifier key.
pub open spec fn modifier_name(m: ModifierKeyCode) -> Seq<char> {
    match m {
        ModifierKeyCode::LeftShift => "LeftShift"@,
        ModifierKeyCode::LeftControl => "LeftControl"@,
        ModifierKeyCode::LeftAlt => "LeftAlt"@,
        ModifierKeyCode::LeftSuper => "LeftSuper"@,
        ModifierKeyCode::LeftHyper => "LeftHyper"@,
        ModifierKeyCode::LeftMeta => "LeftMeta"@,
        ModifierKeyCode::RightShift => "RightShift"@,
        ModifierKeyCode::RightControl => "RightControl"@,
        ModifierKeyCode::RightAlt => "RightAlt"@,
        ModifierKeyCode::RightSuper => "RightSuper"@,
        ModifierKeyCode::RightHyper => "RightHyper"@,
        ModifierKeyCode::RightMeta => "RightMeta"@,
        ModifierKeyCode::IsoLevel3Shift => "IsoLevel3Shift"@,
        ModifierKeyCode::IsoLevel5Shift => "IsoLevel5Shift"@,
    }
}

/// The debug notation (variant name, with the media or modifier key in
/// parentheses) of the keys that have no display name of their own; empty for
/// the keys that have one.
pub open spec fn unnamed_key(code: KeyCode) -> Seq<char> {
    match code {
        KeyCode::Insert => "Insert"@,
        KeyCode::Null => "Null"@,
        KeyCode::CapsLock => "CapsLock"@,
        KeyCode::ScrollLock => "ScrollLock"@,
        KeyCode::NumLock => "NumLock"@,
        KeyCode::PrintScreen => "PrintScreen"@,
        KeyCode::Pause => "Pause"@,
        KeyCode::Menu => "Menu"@,
        KeyCode::KeypadBegin => "KeypadBegin"@,
        KeyCode::Media(m) => "Media("@ + media_name(m) + ")"@,
        KeyCode::Modifier(m) => "Modifier("@ + modifier_name(m) + ")"@,
        _ => Seq::empty(),
    }
}

/// The name under which a key is shown in full notation.
pub open spec fn key_name(code: KeyCode) -> Seq<char> {
    match code {
        KeyCode::Char(c) => if c == ' ' {
            "Space"@
        } else {
            seq![lower(c)]
        },
        KeyCode::Up => "\u{2191}"@,
        KeyCode::Down => "\u{2193}"@,
        KeyCode::Left => "\u{2190}"@,
        KeyCode::Right => "\u{2192}"@,
        KeyCode::Enter => "Enter"@,
        KeyCode::Esc => "Esc"@,
        KeyCode::Tab => "Tab"@,
        KeyCode::BackTab => "Shift+Tab"@,
        KeyCode::Backspace => "Backspace"@,
        KeyCode::Delete => "Delete"@,
        KeyCode::Home => "Home"@,
        KeyCode::End => "End"@,
        KeyCode::PageUp => "PageUp"@,
        KeyCode::PageDown => "PageDown"@,
        KeyCode::F(n) => "F"@ + decimal(n as nat),
        _ => unnamed_key(code),
    }
}

/// The name under which a key is shown in compact notation.
pub open spec fn compact_key_name(code: KeyCode) -> Seq<char> {
    match code {
        KeyCode::Char(c) => if c == ' ' {
            "Space"@
        } else {
            seq![lower(c)]
        },
        KeyCode::Up => "\u{2191}"@,
        KeyCode::Down => "\u{2193}"@,
        KeyCode::Left => "\u{2190}"@,
        KeyCode::Right => "\u{2192}"@,
        KeyCode::Enter => "\u{23ce}"@,
        KeyCode::Esc => "Esc"@,
        KeyCode::BackTab => "Tab"@,
        KeyCode::Tab => "Tab"@,
        KeyCode::Backspace => "\u{232b}"@,
        KeyCode::Delete => "Del"@,
        KeyCode::Home => "Home"@,
        KeyCode::End => "End"@,
        KeyCode::PageUp => "PgUp"@,
        KeyCode::PageDown => "PgDn"@,
        KeyCode::F(n) => "F"@ + decimal(n as nat),
        _ => unnamed_key(code),
    }
}

} // verus!
