//! What goes on to the virtual input device: which events, and as which
//! key of the device.

use vstd::prelude::*;
use crate::keys::{Key, KeyEvent, MediaKey, StandardKey};

verus! {

/// The keys of the virtual input device's main group that a key of the
/// keyboard can stand for.
#[derive(Clone, Copy, Debug, PartialEq, Eq, Structural, Hash)]
pub enum UinputStandardKey {
    A, B, C, D, E, F, G, H, I, J, K, L, M, N, O, P, Q, R, S, T, U, V, W, X, Y, Z, _1, _2,
    _3, _4, _5, _6, _7, _8, _9, _0, Enter, Esc, BackSpace, Tab, Space, Minus, Equal,
    LeftBrace, RightBrace, BackSlash, SemiColon, Apostrophe, Grave, Comma, Dot, Slash,
    CapsLock, F1, F2, F3, F4, F5, F6, F7, F8, F9, F10, F11, F12, SysRq, ScrollLock, Insert,
    Home, PageUp, Delete, End, PageDown, Right, Left, Down, Up, NumLock, LeftControl,
    LeftShift, LeftAlt, LeftMeta, RightControl, RightShift, RightAlt, RightMeta,
}

/// The keys of the virtual input device's number pad.
#[derive(Clone, Copy, Debug, PartialEq, Eq, Structural, Hash)]
pub enum KeyPad {
    Slash, Asterisk, Minus, Plus, Enter, _1, _2, _3, _4, _5, _6, _7, _8, _9, _0, Dot,
}

/// The other keys of the virtual input device that a key of the keyboard
/// can stand for.
#[derive(Clone, Copy, Debug, PartialEq, Eq, Structural, Hash)]
pub enum Misc {
    Pause, ND102, Menu, NextSong, PreviousSong, Stop, PlayPause, VolumeUp, VolumeDown, Mute,
}

/// A key of the virtual input device.
#[derive(Clone, Copy, Debug, PartialEq, Eq, Structural, Hash)]
pub enum UinputKey {
    Key(UinputStandardKey),
    KeyPad(KeyPad),
    Misc(Misc),
}

/// What is to be done on the virtual input device.
#[derive(Clone, Copy, Debug, PartialEq, Eq, Structural, Hash)]
pub enum UinputAction {
    Press(UinputKey),
    Release(UinputKey),
}

/// The key of the device that a key of the main blocks stands for. The
/// device thinks in the American layout, the keyboard is labelled in the
/// German one: the key labelled Z is the device's Y, and so on. The keys
/// for other countries' layouts, and no key, stand for nothing.
pub open spec fn spec_to_uinput_key(key: StandardKey) -> Option<UinputKey> {
    match key {
        StandardKey::NoKey => None,
        StandardKey::A => Some(UinputKey::Key(UinputStandardKey::A)),
        StandardKey::B => Some(UinputKey::Key(UinputStandardKey::B)),
        StandardKey::C => Some(UinputKey::Key(UinputStandardKey::C)),
        StandardKey::D => Some(UinputKey::Key(UinputStandardKey::D)),
        StandardKey::E => Some(UinputKey::Key(UinputStandardKey::E)),
        StandardKey::F => Some(UinputKey::Key(UinputStandardKey::F)),
        StandardKey::G => Some(UinputKey::Key(UinputStandardKey::G)),
        StandardKey::H => Some(UinputKey::Key(UinputStandardKey::H)),
        StandardKey::I => Some(UinputKey::Key(UinputStandardKey::I)),
        StandardKey::J => Some(UinputKey::Key(UinputStandardKey::J)),
        StandardKey::K => Some(UinputKey::Key(UinputStandardKey::K)),
        StandardKey::L => Some(UinputKey::Key(UinputStandardKey::L)),
        StandardKey::M => Some(UinputKey::Key(UinputStandardKey::M)),
        StandardKey::N => Some(UinputKey::Key(UinputStandardKey::N)),
        StandardKey::O => Some(UinputKey::Key(UinputStandardKey::O)),
        StandardKey::P => Some(UinputKey::Key(UinputStandardKey::P)),
        StandardKey::Q => Some(UinputKey::Key(UinputStandardKey::Q)),
        StandardKey::R => Some(UinputKey::Key(UinputStandardKey::R)),
        StandardKey::S => Some(UinputKey::Key(UinputStandardKey::S)),
        StandardKey::T => Some(UinputKey::Key(UinputStandardKey::T)),
        StandardKey::U => Some(UinputKey::Key(UinputStandardKey::U)),
        StandardKey::V => Some(UinputKey::Key(UinputStandardKey::V)),
        StandardKey::W => Some(UinputKey::Key(UinputStandardKey::W)),
        StandardKey::X => Some(UinputKey::Key(UinputStandardKey::X)),
        StandardKey::Z => Some(UinputKey::Key(UinputStandardKey::Y)),
        StandardKey::Y => Some(UinputKey::Key(UinputStandardKey::Z)),
        StandardKey::_1 => Some(UinputKey::Key(UinputStandardKey::_1)),
        StandardKey::_2 => Some(UinputKey::Key(UinputStandardKey::_2)),
        StandardKey::_3 => Some(UinputKey::Key(UinputStandardKey::_3)),
        StandardKey::_4 => Some(UinputKey::Key(UinputStandardKey::_4)),
        StandardKey::_5 => Some(UinputKey::Key(UinputStandardKey::_5)),
        StandardKey::_6 => Some(UinputKey::Key(UinputStandardKey::_6)),
        StandardKey::_7 => Some(UinputKey::Key(UinputStandardKey::_7)),
        StandardKey::_8 => Some(UinputKey::Key(UinputStandardKey::_8)),
        StandardKey::_9 => Some(UinputKey::Key(UinputStandardKey::_9)),
        StandardKey::_0 => Some(UinputKey::Key(UinputStandardKey::_0)),
        StandardKey::Return => Some(UinputKey::Key(UinputStandardKey::Enter)),
        StandardKey::Esc => Some(UinputKey::Key(UinputStandardKey::Esc)),
        StandardKey::Backspace => Some(UinputKey::Key(UinputStandardKey::BackSpace)),
        StandardKey::Tab => Some(UinputKey::Key(UinputStandardKey::Tab)),
        StandardKey::Space => Some(UinputKey::Key(UinputStandardKey::Space)),
        StandardKey::Sz => Some(UinputKey::Key(UinputStandardKey::Minus)),
        StandardKey::Tick => Some(UinputKey::Key(UinputStandardKey::Equal)),
        StandardKey::Uuml => Some(UinputKey::Key(UinputStandardKey::LeftBrace)),
        StandardKey::Plus => Some(UinputKey::Key(UinputStandardKey::RightBrace)),
        StandardKey::Pipe => Some(UinputKey::Key(UinputStandardKey::BackSlash)),
        StandardKey::Sharp => Some(UinputKey::Key(UinputStandardKey::BackSlash)),
        StandardKey::Ouml => Some(UinputKey::Key(UinputStandardKey::SemiColon)),
        StandardKey::Auml => Some(UinputKey::Key(UinputStandardKey::Apostrophe)),
        StandardKey::Circumflex => Some(UinputKey::Key(UinputStandardKey::Grave)),
        StandardKey::Comma => Some(UinputKey::Key(UinputStandardKey::Comma)),
        StandardKey::Dot => Some(UinputKey::Key(UinputStandardKey::Dot)),
        StandardKey::Minus => Some(UinputKey::Key(UinputStandardKey::Slash)),
        StandardKey::CapsLock => Some(UinputKey::Key(UinputStandardKey::CapsLock)),
        StandardKey::F1 => Some(UinputKey::Key(UinputStandardKey::F1)),
        StandardKey::F2 => Some(UinputKey::Key(UinputStandardKey::F2)),
        StandardKey::F3 => Some(UinputKey::Key(UinputStandardKey::F3)),
        StandardKey::F4 => Some(UinputKey::Key(UinputStandardKey::F4)),
        StandardKey::F5 => Some(UinputKey::Key(UinputStandardKey::F5)),
        StandardKey::F6 => Some(UinputKey::Key(UinputStandardKey::F6)),
        StandardKey::F7 => Some(UinputKey::Key(UinputStandardKey::F7)),
        StandardKey::F8 => Some(UinputKey::Key(UinputStandardKey::F8)),
        StandardKey::F9 => Some(UinputKey::Key(UinputStandardKey::F9)),
        StandardKey::F10 => Some(UinputKey::Key(UinputStandardKey::F10)),
        StandardKey::F11 => Some(UinputKey::Key(UinputStandardKey::F11)),
        StandardKey::F12 => Some(UinputKey::Key(UinputStandardKey::F12)),
        StandardKey::Print => Some(UinputKey::Key(UinputStandardKey::SysRq)),
        StandardKey::ScrollLock => Some(UinputKey::Key(UinputStandardKey::ScrollLock)),
        StandardKey::Pause => Some(UinputKey::Misc(Misc::Pause)),
        StandardKey::Insert => Some(UinputKey::Key(UinputStandardKey::Insert)),
        StandardKey::Home => Some(UinputKey::Key(UinputStandardKey::Home)),
        StandardKey::PageUp => Some(UinputKey::Key(UinputStandardKey::PageUp)),
        StandardKey::Delete => Some(UinputKey::Key(UinputStandardKey::Delete)),
        StandardKey::End => Some(UinputKey::Key(UinputStandardKey::End)),
        StandardKey::PageDown => Some(UinputKey::Key(UinputStandardKey::PageDown)),
        StandardKey::Right => Some(UinputKey::Key(UinputStandardKey::Right)),
        StandardKey::Left => Some(UinputKey::Key(UinputStandardKey::Left)),
        StandardKey::Down => Some(UinputKey::Key(UinputStandardKey::Down)),
        StandardKey::Up => Some(UinputKey::Key(UinputStandardKey::Up)),
        StandardKey::NumLock => Some(UinputKey::Key(UinputStandardKey::NumLock)),
        StandardKey::NumSlash => Some(UinputKey::KeyPad(KeyPad::Slash)),
        StandardKey::NumStar => Some(UinputKey::KeyPad(KeyPad::Asterisk)),
        StandardKey::NumMinus => Some(UinputKey::KeyPad(KeyPad::Minus)),
        StandardKey::NumPlus => Some(UinputKey::KeyPad(KeyPad::Plus)),
        StandardKey::NumReturn => Some(UinputKey::KeyPad(KeyPad::Enter)),
        StandardKey::Num1 => Some(UinputKey::KeyPad(KeyPad::_1)),
        StandardKey::Num2 => Some(UinputKey::KeyPad(KeyPad::_2)),
        StandardKey::Num3 => Some(UinputKey::KeyPad(KeyPad::_3)),
        StandardKey::Num4 => Some(UinputKey::KeyPad(KeyPad::_4)),
        StandardKey::Num5 => Some(UinputKey::KeyPad(KeyPad::_5)),
        StandardKey::Num6 => Some(UinputKey::KeyPad(KeyPad::_6)),
        StandardKey::Num7 => Some(UinputKey::KeyPad(KeyPad::_7)),
        StandardKey::Num8 => Some(UinputKey::KeyPad(KeyPad::_8)),
        StandardKey::Num9 => Some(UinputKey::KeyPad(KeyPad::_9)),
        StandardKey::Num0 => Some(UinputKey::KeyPad(KeyPad::_0)),
        StandardKey::NumComma => Some(UinputKey::KeyPad(KeyPad::Dot)),
        StandardKey::SmallerThan => Some(UinputKey::Misc(Misc::ND102)),
        StandardKey::Menu => Some(UinputKey::Misc(Misc::Menu)),
        StandardKey::International1 => None,
        StandardKey::International2 => None,
        StandardKey::International3 => None,
        StandardKey::International4 => None,
        StandardKey::International5 => None,
        StandardKey::LeftControl => Some(UinputKey::Key(UinputStandardKey::LeftControl)),
        StandardKey::LeftShift => Some(UinputKey::Key(UinputStandardKey::LeftShift)),
        StandardKey::LeftAlt => Some(UinputKey::Key(UinputStandardKey::LeftAlt)),
        StandardKey::LeftWindows => Some(UinputKey::Key(UinputStandardKey::LeftMeta)),
        StandardKey::RightControl => Some(UinputKey::Key(UinputStandardKey::RightControl)),
        StandardKey::RightShift => Some(UinputKey::Key(UinputStandardKey::RightShift)),
        StandardKey::RightAlt => Some(UinputKey::Key(UinputStandardKey::RightAlt)),
        StandardKey::RightWindows => Some(UinputKey::Key(UinputStandardKey::RightMeta)),
    }
}

/// The key of the device that a media key stands for.
pub open spec fn spec_media_to_uinput_key(key: MediaKey) -> Option<UinputKey> {
    match key {
        MediaKey::NoKey => None,
        MediaKey::Forward => Some(UinputKey::Misc(Misc::NextSong)),
        MediaKey::Backward => Some(UinputKey::Misc(Misc::PreviousSong)),
        MediaKey::Stop => Some(UinputKey::Misc(Misc::Stop)),
        MediaKey::PlayPause => Some(UinputKey::Misc(Misc::PlayPause)),
        MediaKey::VolumeUp => Some(UinputKey::Misc(Misc::VolumeUp)),
        MediaKey::VolumeDown => Some(UinputKey::Misc(Misc::VolumeDown)),
        MediaKey::Mute => Some(UinputKey::Misc(Misc::Mute)),
    }
}

/// The key of the device that a key stands for: nothing, for a key that is
/// neither of the main blocks nor a media key.
pub open spec fn spec_key_to_uinput_key(key: Key) -> Option<UinputKey> {
    match key {
        Key::Standard(k) => spec_to_uinput_key(k),
        Key::Media(k) => spec_media_to_uinput_key(k),
        _ => None,
    }
}

/// Whether the event is handed on to the virtual input device: it is, if
/// its key is one of the main blocks or a media key.
pub open spec fn spec_accept(evt: KeyEvent) -> bool {
    evt.spec_key() is Standard || evt.spec_key() is Media
}

/// What an event asks of the device: to press or to release the key that
/// the event's key stands for, if it stands for one.
pub open spec fn spec_handle(evt: KeyEvent) -> Option<UinputAction> {
    match spec_key_to_uinput_key(evt.spec_key()) {
        Some(key) => Some(
            match evt {
                KeyEvent::KeyPressed(_) => UinputAction::Press(key),
                KeyEvent::KeyReleased(_) => UinputAction::Release(key),
            },
        ),
        None => None,
    }
}

/// The keys of the main blocks that stand for nothing on the device are
/// no key and the five keys for other countries' layouts.
pub proof fn lemma_keys_without_uinput_key(key: StandardKey)
    ensures
        spec_to_uinput_key(key) is None <==> {
            ||| key == StandardKey::NoKey
            ||| key == StandardKey::International1
            ||| key == StandardKey::International2
            ||| key == StandardKey::International3
            ||| key == StandardKey::International4
            ||| key == StandardKey::International5
        },
{
}

/// Two keys of the main blocks stand for the same key of the device only
/// if they are the two that sit in one place on different layouts, the
/// pipe key and the sharp key.
pub proof fn lemma_uinput_keys_differ(a: StandardKey, b: StandardKey)
    requires
        a != b,
        spec_to_uinput_key(a) is Some,
        spec_to_uinput_key(a) == spec_to_uinput_key(b),
    ensures
        (a == StandardKey::Pipe && b == StandardKey::Sharp) || (a == StandardKey::Sharp && b
            == StandardKey::Pipe),
{
}

/// Every media key but no key stands for a key of the device, and no two
/// for the same. None stands for the same as a key of the main blocks.
pub proof fn lemma_media_uinput_keys_differ(a: MediaKey, b: MediaKey, c: StandardKey)
    ensures
        spec_media_to_uinput_key(a) is None <==> a == MediaKey::NoKey,
        a != b && spec_media_to_uinput_key(a) is Some ==> spec_media_to_uinput_key(a)
            != spec_media_to_uinput_key(b),
        spec_media_to_uinput_key(a) is Some ==> spec_media_to_uinput_key(a) != spec_to_uinput_key(c),
{
}

impl StandardKey {
    /// The key of the device that this key stands for.
    pub fn to_uinput_key(&self) -> (key: Option<UinputKey>)
        ensures
            key == spec_to_uinput_key(*self),
    {
        match self {
            StandardKey::NoKey => None,
            StandardKey::A => Some(UinputKey::Key(UinputStandardKey::A)),
            StandardKey::B => Some(UinputKey::Key(UinputStandardKey::B)),
            StandardKey::C => Some(UinputKey::Key(UinputStandardKey::C)),
            StandardKey::D => Some(UinputKey::Key(UinputStandardKey::D)),
            StandardKey::E => Some(UinputKey::Key(UinputStandardKey::E)),
            StandardKey::F => Some(UinputKey::Key(UinputStandardKey::F)),
            StandardKey::G => Some(UinputKey::Key(UinputStandardKey::G)),
            StandardKey::H => Some(UinputKey::Key(UinputStandardKey::H)),
            StandardKey::I => Some(UinputKey::Key(UinputStandardKey::I)),
            StandardKey::J => Some(UinputKey::Key(UinputStandardKey::J)),
            StandardKey::K => Some(UinputKey::Key(UinputStandardKey::K)),
            StandardKey::L => Some(UinputKey::Key(UinputStandardKey::L)),
            StandardKey::M => Some(UinputKey::Key(UinputStandardKey::M)),
            StandardKey::N => Some(UinputKey::Key(UinputStandardKey::N)),
            StandardKey::O => Some(UinputKey::Key(UinputStandardKey::O)),
            StandardKey::P => Some(UinputKey::Key(UinputStandardKey::P)),
            StandardKey::Q => Some(UinputKey::Key(UinputStandardKey::Q)),
            StandardKey::R => Some(UinputKey::Key(UinputStandardKey::R)),
            StandardKey::S => Some(UinputKey::Key(UinputStandardKey::S)),
            StandardKey::T => Some(UinputKey::Key(UinputStandardKey::T)),
            StandardKey::U => Some(UinputKey::Key(UinputStandardKey::U)),
            StandardKey::V => Some(UinputKey::Key(UinputStandardKey::V)),
            StandardKey::W => Some(UinputKey::Key(UinputStandardKey::W)),
            StandardKey::X => Some(UinputKey::Key(UinputStandardKey::X)),
            StandardKey::Z => Some(UinputKey::Key(UinputStandardKey::Y)),
            StandardKey::Y => Some(UinputKey::Key(UinputStandardKey::Z)),
            StandardKey::_1 => Some(UinputKey::Key(UinputStandardKey::_1)),
            StandardKey::_2 => Some(UinputKey::Key(UinputStandardKey::_2)),
            StandardKey::_3 => Some(UinputKey::Key(UinputStandardKey::_3)),
            StandardKey::_4 => Some(UinputKey::Key(UinputStandardKey::_4)),
            StandardKey::_5 => Some(UinputKey::Key(UinputStandardKey::_5)),
            StandardKey::_6 => Some(UinputKey::Key(UinputStandardKey::_6)),
            StandardKey::_7 => Some(UinputKey::Key(UinputStandardKey::_7)),
            StandardKey::_8 => Some(UinputKey::Key(UinputStandardKey::_8)),
            StandardKey::_9 => Some(UinputKey::Key(UinputStandardKey::_9)),
            StandardKey::_0 => Some(UinputKey::Key(UinputStandardKey::_0)),
            StandardKey::Return => Some(UinputKey::Key(UinputStandardKey::Enter)),
            StandardKey::Esc => Some(UinputKey::Key(UinputStandardKey::Esc)),
            StandardKey::Backspace => Some(UinputKey::Key(UinputStandardKey::BackSpace)),
            StandardKey::Tab => Some(UinputKey::Key(UinputStandardKey::Tab)),
            StandardKey::Space => Some(UinputKey::Key(UinputStandardKey::Space)),
            StandardKey::Sz => Some(UinputKey::Key(UinputStandardKey::Minus)),
            StandardKey::Tick => Some(UinputKey::Key(UinputStandardKey::Equal)),
            StandardKey::Uuml => Some(UinputKey::Key(UinputStandardKey::LeftBrace)),
            StandardKey::Plus => Some(UinputKey::Key(UinputStandardKey::RightBrace)),
            StandardKey::Pipe => Some(UinputKey::Key(UinputStandardKey::BackSlash)),
            StandardKey::Sharp => Some(UinputKey::Key(UinputStandardKey::BackSlash)),
            StandardKey::Ouml => Some(UinputKey::Key(UinputStandardKey::SemiColon)),
            StandardKey::Auml => Some(UinputKey::Key(UinputStandardKey::Apostrophe)),
            StandardKey::Circumflex => Some(UinputKey::Key(UinputStandardKey::Grave)),
            StandardKey::Comma => Some(UinputKey::Key(UinputStandardKey::Comma)),
            StandardKey::Dot => Some(UinputKey::Key(UinputStandardKey::Dot)),
            StandardKey::Minus => Some(UinputKey::Key(UinputStandardKey::Slash)),
            StandardKey::CapsLock => Some(UinputKey::Key(UinputStandardKey::CapsLock)),
            StandardKey::F1 => Some(UinputKey::Key(UinputStandardKey::F1)),
            StandardKey::F2 => Some(UinputKey::Key(UinputStandardKey::F2)),
            StandardKey::F3 => Some(UinputKey::Key(UinputStandardKey::F3)),
            StandardKey::F4 => Some(UinputKey::Key(UinputStandardKey::F4)),
            StandardKey::F5 => Some(UinputKey::Key(UinputStandardKey::F5)),
            StandardKey::F6 => Some(UinputKey::Key(UinputStandardKey::F6)),
            StandardKey::F7 => Some(UinputKey::Key(UinputStandardKey::F7)),
            StandardKey::F8 => Some(UinputKey::Key(UinputStandardKey::F8)),
            StandardKey::F9 => Some(UinputKey::Key(UinputStandardKey::F9)),
            StandardKey::F10 => Some(UinputKey::Key(UinputStandardKey::F10)),
            StandardKey::F11 => Some(UinputKey::Key(UinputStandardKey::F11)),
            StandardKey::F12 => Some(UinputKey::Key(UinputStandardKey::F12)),
            StandardKey::Print => Some(UinputKey::Key(UinputStandardKey::SysRq)),
            StandardKey::ScrollLock => Some(UinputKey::Key(UinputStandardKey::ScrollLock)),
            StandardKey::Pause => Some(UinputKey::Misc(Misc::Pause)),
            StandardKey::Insert => Some(UinputKey::Key(UinputStandardKey::Insert)),
            StandardKey::Home => Some(UinputKey::Key(UinputStandardKey::Home)),
            StandardKey::PageUp => Some(UinputKey::Key(UinputStandardKey::PageUp)),
            StandardKey::Delete => Some(UinputKey::Key(UinputStandardKey::Delete)),
            StandardKey::End => Some(UinputKey::Key(UinputStandardKey::End)),
            StandardKey::PageDown => Some(UinputKey::Key(UinputStandardKey::PageDown)),
            StandardKey::Right => Some(UinputKey::Key(UinputStandardKey::Right)),
            StandardKey::Left => Some(UinputKey::Key(UinputStandardKey::Left)),
            StandardKey::Down => Some(UinputKey::Key(UinputStandardKey::Down)),
            StandardKey::Up => Some(UinputKey::Key(UinputStandardKey::Up)),
            StandardKey::NumLock => Some(UinputKey::Key(UinputStandardKey::NumLock)),
            StandardKey::NumSlash => Some(UinputKey::KeyPad(KeyPad::Slash)),
            StandardKey::NumStar => Some(UinputKey::KeyPad(KeyPad::Asterisk)),
            StandardKey::NumMinus => Some(UinputKey::KeyPad(KeyPad::Minus)),
            StandardKey::NumPlus => Some(UinputKey::KeyPad(KeyPad::Plus)),
            StandardKey::NumReturn => Some(UinputKey::KeyPad(KeyPad::Enter)),
            StandardKey::Num1 => Some(UinputKey::KeyPad(KeyPad::_1)),
            StandardKey::Num2 => Some(UinputKey::KeyPad(KeyPad::_2)),
            StandardKey::Num3 => Some(UinputKey::KeyPad(KeyPad::_3)),
            StandardKey::Num4 => Some(UinputKey::KeyPad(KeyPad::_4)),
            StandardKey::Num5 => Some(UinputKey::KeyPad(KeyPad::_5)),
            StandardKey::Num6 => Some(UinputKey::KeyPad(KeyPad::_6)),
            StandardKey::Num7 => Some(UinputKey::KeyPad(KeyPad::_7)),
            StandardKey::Num8 => Some(UinputKey::KeyPad(KeyPad::_8)),
            StandardKey::Num9 => Some(UinputKey::KeyPad(KeyPad::_9)),
            StandardKey::Num0 => Some(UinputKey::KeyPad(KeyPad::_0)),
            StandardKey::NumComma => Some(UinputKey::KeyPad(KeyPad::Dot)),
            StandardKey::SmallerThan => Some(UinputKey::Misc(Misc::ND102)),
            StandardKey::Menu => Some(UinputKey::Misc(Misc::Menu)),
            StandardKey::International1 => None,
            StandardKey::International2 => None,
            StandardKey::International3 => None,
            StandardKey::International4 => None,
            StandardKey::International5 => None,
            StandardKey::LeftControl => Some(UinputKey::Key(UinputStandardKey::LeftControl)),
            StandardKey::LeftShift => Some(UinputKey::Key(UinputStandardKey::LeftShift)),
            StandardKey::LeftAlt => Some(UinputKey::Key(UinputStandardKey::LeftAlt)),
            StandardKey::LeftWindows => Some(UinputKey::Key(UinputStandardKey::LeftMeta)),
            StandardKey::RightControl => Some(UinputKey::Key(UinputStandardKey::RightControl)),
            StandardKey::RightShift => Some(UinputKey::Key(UinputStandardKey::RightShift)),
            StandardKey::RightAlt => Some(UinputKey::Key(UinputStandardKey::RightAlt)),
            StandardKey::RightWindows => Some(UinputKey::Key(UinputStandardKey::RightMeta)),
        }
    }
}

impl MediaKey {
    /// The key of the device that this key stands for.
    pub fn to_uinput_key(&self) -> (key: Option<UinputKey>)
        ensures
            key == spec_media_to_uinput_key(*self),
    {
        match self {
            MediaKey::NoKey => None,
            MediaKey::Forward => Some(UinputKey::Misc(Misc::NextSong)),
            MediaKey::Backward => Some(UinputKey::Misc(Misc::PreviousSong)),
            MediaKey::Stop => Some(UinputKey::Misc(Misc::Stop)),
            MediaKey::PlayPause => Some(UinputKey::Misc(Misc::PlayPause)),
            MediaKey::VolumeUp => Some(UinputKey::Misc(Misc::VolumeUp)),
            MediaKey::VolumeDown => Some(UinputKey::Misc(Misc::VolumeDown)),
            MediaKey::Mute => Some(UinputKey::Misc(Misc::Mute)),
        }
    }
}

/// Whether the event is handed on to the virtual input device.
pub fn accept(evt: &KeyEvent) -> (r: bool)
    ensures
        r == spec_accept(*evt),
{
    match evt.key() {
        Key::Standard(_) => true,
        Key::Media(_) => true,
        _ => false,
    }
}

/// What an event that [`accept`] let through asks of the device.
pub fn handle(evt: &KeyEvent) -> (action: Option<UinputAction>)
    requires
        spec_accept(*evt),
    ensures
        action == spec_handle(*evt),
{
    let key: Option<UinputKey> = match evt.key() {
        Key::Standard(k) => k.to_uinput_key(),
        Key::Media(k) => k.to_uinput_key(),
        _ => None,
    };
    match key {
        Some(k) => match evt {
            KeyEvent::KeyPressed(_) => Some(UinputAction::Press(k)),
            KeyEvent::KeyReleased(_) => Some(UinputAction::Release(k)),
        },
        None => None,
    }
}

} // verus!
