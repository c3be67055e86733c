use vstd::prelude::*;
use crate::viewport::{App, Command};

verus! {

/// A key press, as the viewer distinguishes keys.
#[derive(Clone, Copy, Debug, PartialEq, Eq, Structural)]
pub enum Key {
    Char(char),
    Left,
    Right,
    Up,
    Down,
    Other,
}

/// What the viewer does in answer to a key.
#[derive(Clone, Copy, Debug, PartialEq, Eq, Structural)]
pub enum KeyAction {
    Quit,
    Run(Command),
    Ignore,
}

/// The key bindings: `q` quits; `+` or `=` zooms in, `-` zooms out; the
/// arrows or `h`, `l`, `k`, `j` pan; `i` and `d` raise and lower the budget.
pub open spec fn key_action_spec(key: Key) -> KeyAction {
    match key {
        Key::Left => KeyAction::Run(Command::MoveLeft),
        Key::Right => KeyAction::Run(Command::MoveRight),
        Key::Up => KeyAction::Run(Command::MoveUp),
        Key::Down => KeyAction::Run(Command::MoveDown),
        Key::Other => KeyAction::Ignore,
        Key::Char(c) => if c == 'q' {
            KeyAction::Quit
        } else if c == '+' || c == '=' {
            KeyAction::Run(Command::ZoomIn)
        } else if c == '-' {
            KeyAction::Run(Command::ZoomOut)
        } else if c == 'h' {
            KeyAction::Run(Command::MoveLeft)
        } else if c == 'l' {
            KeyAction::Run(Command::MoveRight)
        } else if c == 'k' {
            KeyAction::Run(Command::MoveUp)
        } else if c == 'j' {
            KeyAction::Run(Command::MoveDown)
        } else if c == 'i' {
            KeyAction::Run(Command::IncreaseIterations)
        } else if c == 'd' {
            KeyAction::Run(Command::DecreaseIterations)
        } else {
            KeyAction::Ignore
        },
    }
}

/// Looks a key up in the bindings.
pub fn key_action(key: Key) -> (r: KeyAction)
    ensures
        r == key_action_spec(key),
{
    match key {
        Key::Left => KeyAction::Run(Command::MoveLeft),
        Key::Right => KeyAction::Run(Command::MoveRight),
        Key::Up => KeyAction::Run(Command::MoveUp),
        Key::Down => KeyAction::Run(Command::MoveDown),
        Key::Other => KeyAction::Ignore,
        Key::Char(c) => match c {
            'q' => KeyAction::Quit,
            '+' | '=' => KeyAction::Run(Command::ZoomIn),
            '-' => KeyAction::Run(Command::ZoomOut),
            'h' => KeyAction::Run(Command::MoveLeft),
            'l' => KeyAction::Run(Command::MoveRight),
            'k' => KeyAction::Run(Command::MoveUp),
            'j' => KeyAction::Run(Command::MoveDown),
            'i' => KeyAction::Run(Command::IncreaseIterations),
            'd' => KeyAction::Run(Command::DecreaseIterations),
            _ => KeyAction::Ignore,
        },
    }
}

/// The viewport after handling `key`: the bound command's effect, or no
/// change for the quit key and unbound keys.
pub open spec fn after_key(app: App, key: Key) -> App {
    match key_action_spec(key) {
        KeyAction::Run(cmd) => app.apply_spec(cmd),
        _ => app,
    }
}

/// One step of the viewer's control loop on a key press: updates the
/// viewport and returns `true` exactly when the key asks to quit.
pub fn handle_key(app: &mut App, key: Key) -> (quit: bool)
    requires
        old(app).wf(),
    ensures
        quit == (key_action_spec(key) == KeyAction::Quit),
        *final(app) == after_key(*old(app), key),
        final(app).wf(),
{
    match key_action(key) {
        KeyAction::Quit => true,
        KeyAction::Run(cmd) => {
            app.apply(cmd);
            false
        },
        KeyAction::Ignore => false,
    }
}

} // verus!
