//! What the user can ask of the browser.
//!
//! An event of the terminal is read as a command, and a command is a step of the
//! browser. Reading events and drawing the display is left to the program around the
//! browser, which hands over one event at a time.

use crate::graph::GraphView;
use crate::state::back;
use crate::state::cursor_next;
use crate::state::cursor_prev;
use crate::state::select;
use crate::state::State;
use vstd::prelude::*;

verus! {

/// A key of the keyboard, as far as the browser tells keys apart.
#[derive(Clone, Copy, Debug, PartialEq, Eq, Structural)]
pub enum Key {
    /// A key that stands for a character.
    Char(char),
    /// Any other key.
    Other,
}

/// Something that happened at the terminal.
#[derive(Clone, Copy, Debug, PartialEq, Eq, Structural)]
pub enum Event {
    /// A key was pressed.
    Input(Key),
}

/// What the user asks for.
#[derive(Clone, Copy, Debug, PartialEq, Eq, Structural)]
pub enum Command {
    /// Leave the browser.
    Quit,
    /// Move the cursor one row down.
    CursorNext,
    /// Move the cursor one row up.
    CursorPrev,
    /// Show the function under the cursor.
    Select,
    /// Show the function that was shown before.
    Back,
    /// Nothing.
    Nothing,
}

/// The command that an event stands for: `q` quits, `j` and `k` move the cursor down
/// and up, `l` selects, `h` goes back. Everything else asks for nothing.
pub open spec fn command_of(event: Event) -> Command {
    match event {
        Event::Input(Key::Char('q')) => Command::Quit,
        Event::Input(Key::Char('j')) => Command::CursorNext,
        Event::Input(Key::Char('k')) => Command::CursorPrev,
        Event::Input(Key::Char('l')) => Command::Select,
        Event::Input(Key::Char('h')) => Command::Back,
        _ => Command::Nothing,
    }
}

/// The state after a command.
pub open spec fn step(graph: GraphView, state: State, command: Command) -> State {
    match command {
        Command::Quit => state,
        Command::CursorNext => cursor_next(state),
        Command::CursorPrev => cursor_prev(state),
        Command::Select => select(graph, state),
        Command::Back => back(graph, state),
        Command::Nothing => state,
    }
}

/// Reads an event as a command.
pub fn command_for(event: Event) -> (command: Command)
    ensures
        command == command_of(event),
{
    match event {
        Event::Input(Key::Char(c)) => {
            if c == 'q' {
                Command::Quit
            } else if c == 'j' {
                Command::CursorNext
            } else if c == 'k' {
                Command::CursorPrev
            } else if c == 'l' {
                Command::Select
            } else if c == 'h' {
                Command::Back
            } else {
                Command::Nothing
            }
        },
        Event::Input(Key::Other) => Command::Nothing,
    }
}

} // verus!
