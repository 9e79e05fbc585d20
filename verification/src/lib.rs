//! Combat resolution for a spirit-collecting dungeon crawler.
//!
//! The crate decides what a move does numerically, how queued effects drain
//! over time, whose turn it is, when a battle ends, and how the roster changes
//! afterwards. Around the battle it lays out the dungeon's levels, peoples
//! them with roaming bands, and serves the player's input on every screen.
//! Every executable function carries a contract that Verus proves; the only
//! code taken on trust is the handful of random draws in the `chance` module.
//!
//! Time is counted in nanoseconds, combatants are known by their position in
//! a battle's line-up, and everything outside the crate (drawing, sound, the
//! keyboard) is told what to do through plain return values.

pub mod element;
pub mod moves;
mod chance;
pub mod spirit;
pub mod effects;
pub mod roster;
pub mod battle;
pub mod text;
pub mod player_turn;
pub mod tick;
pub mod enemy_turn;
pub mod outcome;
pub mod play;
pub mod menus;
pub mod encounter;
pub mod world;
pub mod maze;
pub mod level;
