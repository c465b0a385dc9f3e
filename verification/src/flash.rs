//! The flash: the whole board is red while a key is down and blue
//! otherwise.

use vstd::prelude::*;
use crate::color::{Color, Command, CommandView, commands_view};
use crate::keys::KeyEvent;

verus! {

/// The flash effect. It keeps no state.
#[derive(Clone, Copy, Debug)]
pub struct FlashHandler;

/// The colour that the flash shows the board in after an event: red after
/// a press, blue after a release.
pub open spec fn spec_flash_color(evt: KeyEvent) -> Color {
    match evt {
        KeyEvent::KeyPressed(_) => Color { red: 255, green: 0, blue: 0 },
        KeyEvent::KeyReleased(_) => Color { red: 0, green: 0, blue: 255 },
    }
}

impl FlashHandler {
    pub fn new() -> FlashHandler {
        FlashHandler
    }

    /// Starts the effect: the whole board is shown in blue.
    pub fn init(&mut self) -> (cmds: Vec<Command>)
        ensures
            commands_view(cmds@) == seq![
                CommandView::SetAll(Color { red: 0, green: 0, blue: 255 }),
            ],
    {
        let mut cmds: Vec<Command> = Vec::new();
        cmds.push(Command::SetAll(Color::new(0, 0, 255)));
        assert(commands_view(cmds@) =~= seq![
            CommandView::SetAll(Color { red: 0, green: 0, blue: 255 }),
        ]);
        cmds
    }

    /// The flash takes every event.
    pub fn accept_key(&self, evt: &KeyEvent) -> (r: bool)
        ensures
            r,
    {
        true
    }

    /// Shows the whole board in red after a press and in blue after a
    /// release.
    pub fn handle_key(&mut self, evt: &KeyEvent) -> (cmds: Vec<Command>)
        ensures
            commands_view(cmds@) == seq![CommandView::SetAll(spec_flash_color(*evt))],
    {
        let color: Color = match evt {
            KeyEvent::KeyPressed(_) => Color::new(255, 0, 0),
            KeyEvent::KeyReleased(_) => Color::new(0, 0, 255),
        };
        let mut cmds: Vec<Command> = Vec::new();
        cmds.push(Command::SetAll(color));
        assert(commands_view(cmds@) =~= seq![CommandView::SetAll(spec_flash_color(*evt))]);
        cmds
    }
}

} // verus!
