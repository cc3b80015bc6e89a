//! The messages of the terminal user interface.

use crate::tui::terminal::Terminal;
use vstd::prelude::*;

verus! {

#[derive(Clone, Copy, Debug, PartialEq, Eq)]
pub enum TuiMsg {
    /// If the app is running in a runloop, this causes that runloop to
    /// exit.
    ExitRunloop,
    /// Redraws the UI and updates user input. If the app is running in a
    /// runloop, this message is automatically sent for you every frame.
    UpdateTerminal,
}

impl TuiMsg {
    /// The byte that stands for the message in the message buffer.
    pub fn to_byte(self) -> (byte: u8)
        ensures
            byte == (match self {
                TuiMsg::ExitRunloop => 0u8,
                TuiMsg::UpdateTerminal => 1u8,
            }),
    {
        match self {
            TuiMsg::ExitRunloop => 0,
            TuiMsg::UpdateTerminal => 1,
        }
    }

    /// The message that `byte` stands for, if it stands for one.
    pub fn from_byte(byte: u8) -> (msg: Option<Self>)
        ensures
            msg == (if byte == 0 {
                Some(TuiMsg::ExitRunloop)
            } else if byte == 1 {
                Some(TuiMsg::UpdateTerminal)
            } else {
                None
            }),
    {
        if byte == 0 {
            Some(TuiMsg::ExitRunloop)
        } else if byte == 1 {
            Some(TuiMsg::UpdateTerminal)
        } else {
            None
        }
    }
}

/// Handles a message of the terminal user interface: the terminal is told
/// to exit, or the caller is told, by `true`, to write the frame out and to
/// read what the user did.
pub fn tui_msg_handler(terminal: &mut Terminal, msg: TuiMsg) -> (update: bool)
    ensures
        update == (msg == TuiMsg::UpdateTerminal),
        msg == TuiMsg::ExitRunloop ==> *final(terminal) == (Terminal {
            exit: true,
            ..*old(terminal)
        }),
        msg == TuiMsg::UpdateTerminal ==> *final(terminal) == *old(terminal),
{
    match msg {
        TuiMsg::ExitRunloop => {
            terminal.exit = true;
            false
        },
        TuiMsg::UpdateTerminal => true,
    }
}

} // verus!
