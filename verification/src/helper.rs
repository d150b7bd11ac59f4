//! The messages that pass between the game and what shows it.

use vstd::prelude::*;
use crate::game::Game;
use crate::physics::Position;

verus! {

/// The buttons of the mouse that the game tells apart.
#[derive(Clone, Copy, Debug, PartialEq, Eq, Structural)]
pub enum MouseButton {
    Left,
    Right,
    Other,
}

/// The keys that the game tells apart.
#[derive(Clone, Copy, Debug, PartialEq, Eq, Structural)]
pub enum Keycode {
    Escape,
    F5,
    F6,
    F7,
    F8,
    F9,
    F10,
    Other,
}

/// What happened at the window, as far as the game reads it.
#[derive(Clone, Copy, Debug, PartialEq, Eq, Structural)]
pub enum Event {
    MouseButtonDown(MouseButton),
    MouseButtonUp(MouseButton),
    KeyDown(Keycode),
    Quit,
    Other,
}

/// From the game to what shows it.
#[derive(Clone, Debug)]
pub enum G2UMessage {
    StateUpdate(Game),
}

/// From the window to the game.
#[derive(Clone, Copy, Debug, PartialEq, Eq, Structural)]
pub enum U2GMessage {
    MouseMotion(Position),
    Event(Event),
    Close,
}

} // verus!
