//! Keyboard input as the game reads it.

use vstd::prelude::*;

verus! {

/// What the player pressed. A key is held by its 16-bit key code, the X11
/// keysym of the key.
#[derive(Debug, Copy, Clone, PartialEq, Eq, Structural)]
pub enum KeyInput {
    Nothing,
    Up,
    Down,
    Left,
    Right,
    Quit,
    Key(u16),
    CtrlKey(u16),
    AltKey(u16),
    ShiftKey(u16),
}

pub const KEY_A: u16 = 0x0041;

pub const KEY_D: u16 = 0x0044;

pub const KEY_E: u16 = 0x0045;

pub const KEY_I: u16 = 0x0049;

pub const KEY_S: u16 = 0x0053;

pub const KEY_W: u16 = 0x0057;

pub const KEY_Y: u16 = 0x0059;

pub const KEY_ESCAPE: u16 = 0xff1b;

pub const KEY_LEFT: u16 = 0xff51;

pub const KEY_UP: u16 = 0xff52;

pub const KEY_RIGHT: u16 = 0xff53;

pub const KEY_DOWN: u16 = 0xff54;

pub const KEY_LEFT_SHIFT: u16 = 0xffe1;

pub const KEY_RIGHT_SHIFT: u16 = 0xffe2;

pub const KEY_LEFT_CONTROL: u16 = 0xffe3;

pub const KEY_RIGHT_CONTROL: u16 = 0xffe4;

pub const KEY_LEFT_ALT: u16 = 0xffe9;

pub const KEY_RIGHT_ALT: u16 = 0xffea;

/// The input that the last pressed key stands for: the arrows and W, A, S, D
/// move, Escape quits, the modifier keys are told apart, and every other
/// key is itself.
pub open spec fn input_of_key(key: Option<u16>) -> KeyInput {
    match key {
        None => KeyInput::Nothing,
        Some(code) => if code == KEY_A || code == KEY_LEFT {
            KeyInput::Left
        } else if code == KEY_D || code == KEY_RIGHT {
            KeyInput::Right
        } else if code == KEY_W || code == KEY_UP {
            KeyInput::Up
        } else if code == KEY_S || code == KEY_DOWN {
            KeyInput::Down
        } else if code == KEY_ESCAPE {
            KeyInput::Quit
        } else if code == KEY_LEFT_CONTROL || code == KEY_RIGHT_CONTROL {
            KeyInput::CtrlKey(code)
        } else if code == KEY_LEFT_ALT || code == KEY_RIGHT_ALT {
            KeyInput::AltKey(code)
        } else if code == KEY_LEFT_SHIFT || code == KEY_RIGHT_SHIFT {
            KeyInput::ShiftKey(code)
        } else {
            KeyInput::Key(code)
        },
    }
}

impl KeyInput {
    /// The input that the last pressed key stands for, `None` where no key
    /// was pressed.
    pub fn from_key(key: Option<u16>) -> (input: Self)
        ensures
            input == input_of_key(key),
    {
        match key {
            None => KeyInput::Nothing,
            Some(code) => {
                if code == KEY_A || code == KEY_LEFT {
                    KeyInput::Left
                } else if code == KEY_D || code == KEY_RIGHT {
                    KeyInput::Right
                } else if code == KEY_W || code == KEY_UP {
                    KeyInput::Up
                } else if code == KEY_S || code == KEY_DOWN {
                    KeyInput::Down
                } else if code == KEY_ESCAPE {
                    KeyInput::Quit
                } else if code == KEY_LEFT_CONTROL || code == KEY_RIGHT_CONTROL {
                    KeyInput::CtrlKey(code)
                } else if code == KEY_LEFT_ALT || code == KEY_RIGHT_ALT {
                    KeyInput::AltKey(code)
                } else if code == KEY_LEFT_SHIFT || code == KEY_RIGHT_SHIFT {
                    KeyInput::ShiftKey(code)
                } else {
                    KeyInput::Key(code)
                }
            },
        }
    }
}

impl Default for KeyInput {
    fn default() -> (k: Self)
        ensures
            k == KeyInput::Nothing,
    {
        KeyInput::Nothing
    }
}

} // verus!
