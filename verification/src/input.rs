use vstd::prelude::*;

use crate::events::{AppEvent, InputEvent, KeyEvent};

verus! {

/// What reading the terminal gave.
#[derive(Debug)]
pub enum TerminalRead {
    /// A key press.
    Key(KeyEvent),
    /// The terminal was resized to this many columns and rows.
    Resize(u16, u16),
    /// Any other terminal event (mouse, paste, focus).
    Other,
    /// Reading failed.
    Failed,
}

/// What the input worker does with what it read.
#[derive(Debug)]
pub enum InputStep {
    /// Send this event to the main thread.
    Forward(AppEvent),
    /// Nothing to send; read again.
    Ignore,
    /// Stop reading.
    Stop,
}

/// Key presses and resizes are forwarded as input events, other terminal
/// events (which have no input event) are ignored, and a failed read stops
/// the worker.
pub fn next_input_step(read: TerminalRead) -> (step: InputStep)
    ensures
        match read {
            TerminalRead::Key(key) => step == InputStep::Forward(AppEvent::Input(InputEvent::Key(key))),
            TerminalRead::Resize(columns, rows) => step == InputStep::Forward(
                AppEvent::Input(InputEvent::Resize(columns, rows)),
            ),
            TerminalRead::Other => step == InputStep::Ignore,
            TerminalRead::Failed => step == InputStep::Stop,
        },
{
    match read {
        TerminalRead::Key(key_event) => InputStep::Forward(AppEvent::Input(InputEvent::Key(key_event))),
        TerminalRead::Resize(columns, rows) => InputStep::Forward(
            AppEvent::Input(InputEvent::Resize(columns, rows)),
        ),
        TerminalRead::Other => InputStep::Ignore,
        TerminalRead::Failed => InputStep::Stop,
    }
}

} // verus!
