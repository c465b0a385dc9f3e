//! Colours and the colour commands that an effect hands to the keyboard.

use vstd::prelude::*;
use crate::keys::Key;

verus! {

/// A colour of three 8-bit channels.
#[derive(Clone, Copy, Debug, PartialEq, Eq, Structural, Hash)]
pub struct Color {
    pub red: u8,
    pub green: u8,
    pub blue: u8,
}

/// The name of a channel of a colour.
#[derive(Clone, Copy, Debug, PartialEq, Eq, Structural, Hash)]
pub enum Channel {
    Red,
    Green,
    Blue,
}

impl Color {
    /// The value of one channel.
    pub open spec fn spec_channel(self, channel: Channel) -> u8 {
        match channel {
            Channel::Red => self.red,
            Channel::Green => self.green,
            Channel::Blue => self.blue,
        }
    }

    /// The value of one channel.
    #[verifier::when_used_as_spec(spec_channel)]
    pub fn channel(self, channel: Channel) -> (value: u8)
        ensures
            value == self.spec_channel(channel),
    {
        match channel {
            Channel::Red => self.red,
            Channel::Green => self.green,
            Channel::Blue => self.blue,
        }
    }

    pub fn new(red: u8, green: u8, blue: u8) -> (c: Color)
        ensures
            c == (Color { red, green, blue }),
    {
        Color { red, green, blue }
    }
}

/// The request to show one key in one colour.
#[derive(Clone, Copy, Debug, PartialEq, Eq, Structural, Hash)]
pub struct KeyColor {
    pub key: Key,
    pub color: Color,
}

impl KeyColor {
    pub fn new(key: Key, color: Color) -> (kc: KeyColor)
        ensures
            kc == (KeyColor { key, color }),
    {
        KeyColor { key, color }
    }
}

/// One instruction to the keyboard. An effect answers each call with a list
/// of them, to be carried out in order.
#[derive(Clone, Debug)]
pub enum Command {
    /// Show every key in this colour.
    SetAll(Color),
    /// Show each listed key in its colour, going through the list in order;
    /// keys that are not listed keep their colour.
    SetKeys(Vec<KeyColor>),
}

/// What a [`Command`] says, with the list as a sequence.
pub enum CommandView {
    SetAll(Color),
    SetKeys(Seq<KeyColor>),
}

impl View for Command {
    type V = CommandView;

    open spec fn view(&self) -> CommandView {
        match self {
            Command::SetAll(c) => CommandView::SetAll(*c),
            Command::SetKeys(v) => CommandView::SetKeys(v@),
        }
    }
}

/// What a list of commands says.
pub open spec fn commands_view(cmds: Seq<Command>) -> Seq<CommandView> {
    cmds.map_values(|c: Command| c@)
}

} // verus!
