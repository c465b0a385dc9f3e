//! The keys of the keyboard and the events they produce.
//!
//! A key is identified by its class and, within the class, by its name or
//! number. The effects never look inside a key beyond that: they compare
//! keys, ask for a key's class, and hand keys back with a colour.

use vstd::prelude::*;

verus! {

/// The keys of the main block, the function row, the navigation block and
/// the number pad. The letter and punctuation keys carry the names of a
/// German layout.
#[derive(Clone, Copy, Debug, PartialEq, Eq, Structural, Hash)]
pub enum StandardKey {
    /// No key at all.
    NoKey,
    A, B, C, D, E, F, G, H, I, J, K, L, M,
    N, O, P, Q, R, S, T, U, V, W, X, Y, Z,
    _1, _2, _3, _4, _5, _6, _7, _8, _9, _0,
    Return, Esc, Backspace, Tab, Space,
    Sz, Tick, Uuml, Plus, Pipe, Sharp, Ouml, Auml, Circumflex,
    Comma, Dot, Minus, CapsLock,
    F1, F2, F3, F4, F5, F6, F7, F8, F9, F10, F11, F12,
    Print, ScrollLock, Pause, Insert, Home, PageUp, Delete, End, PageDown,
    Right, Left, Down, Up,
    NumLock, NumSlash, NumStar, NumMinus, NumPlus, NumReturn,
    Num1, Num2, Num3, Num4, Num5, Num6, Num7, Num8, Num9, Num0, NumComma,
    SmallerThan, Menu,
    International1, International2, International3, International4, International5,
    LeftControl, LeftShift, LeftAlt, LeftWindows,
    RightControl, RightShift, RightAlt, RightWindows,
}

/// The media keys. They report presses but have no light.
#[derive(Clone, Copy, Debug, PartialEq, Eq, Structural, Hash)]
pub enum MediaKey {
    /// No key at all.
    NoKey,
    Forward,
    Backward,
    Stop,
    PlayPause,
    VolumeUp,
    VolumeDown,
    Mute,
}

/// One physical key or light of the keyboard.
#[derive(Clone, Copy, Debug, PartialEq, Eq, Structural, Hash)]
pub enum Key {
    /// A key of the main blocks.
    Standard(StandardKey),
    /// A programmable key, by its number.
    Gaming(u8),
    /// A logo light, by its number.
    Logo(u8),
    /// A media key.
    Media(MediaKey),
}

impl Key {
    /// Whether the key is a media key, whose colour cannot be set.
    pub fn is_media(&self) -> (r: bool)
        ensures
            r == (*self is Media),
    {
        match self {
            Key::Media(_) => true,
            _ => false,
        }
    }

    /// Whether the key is a logo light.
    pub fn is_logo(&self) -> (r: bool)
        ensures
            r == (*self is Logo),
    {
        match self {
            Key::Logo(_) => true,
            _ => false,
        }
    }
}

/// What a key did.
#[derive(Clone, Copy, Debug, PartialEq, Eq, Structural, Hash)]
pub enum KeyEvent {
    KeyPressed(Key),
    KeyReleased(Key),
}

impl KeyEvent {
    /// The key that the event is about.
    pub open spec fn spec_key(self) -> Key {
        match self {
            KeyEvent::KeyPressed(k) => k,
            KeyEvent::KeyReleased(k) => k,
        }
    }

    /// The key that the event is about.
    #[verifier::when_used_as_spec(spec_key)]
    pub fn key(self) -> (k: Key)
        ensures
            k == self.spec_key(),
    {
        match self {
            KeyEvent::KeyPressed(k) => k,
            KeyEvent::KeyReleased(k) => k,
        }
    }
}

} // verus!
