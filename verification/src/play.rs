//! The phases of play outside a battle's own state, and the player's intent
//! as the input layer hands it over.

use vstd::prelude::*;
use crate::element::SpiritType;

verus! {

/// A direction on the keyboard.
#[derive(Clone, Copy, Debug, PartialEq, Eq, Structural)]
pub enum Direction {
    Up,
    Down,
    Left,
    Right,
}

/// What the game is showing.
#[derive(Clone, Debug)]
pub enum PlayState {
    InWorld,
    InBattle,
    Combining,
    GameOver,
    /// The spoils of a won battle: the spirits that joined the roster and
    /// those that found no room.
    Looting { captured: Vec<SpiritType>, lost: Vec<SpiritType> },
    Stairs(u32),
    MainMenu(u32),
}

/// What the player asked for and has not been served yet.
#[derive(Clone, Copy, Debug, PartialEq, Eq, Structural)]
pub enum InputState {
    Rest,
    Move(Direction),
    Select,
    Escape,
}

/// A sound for the surroundings to play.
#[derive(Clone, Copy, Debug, PartialEq, Eq, Structural)]
pub enum SoundCue {
    Blip,
    Cancel,
    Collide,
    Confirm,
    Lose,
    /// The attack sound of an element.
    Attack(SpiritType),
}

} // verus!
