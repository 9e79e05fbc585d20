//! Moves: what a spirit can do on its turn, and the move sets by element.

use vstd::prelude::*;
use crate::element::SpiritType;

verus! {

/// What a move does, with its base magnitude.
#[derive(Clone, Copy, Debug, PartialEq, Eq, Structural)]
pub enum MoveType {
    DamageMany(u32),
    DamageOne(u32),
    Heal(u32),
    Defend(u32),
}

/// A named move.
#[derive(Debug)]
pub struct Move {
    pub name: String,
    pub effect: MoveType,
}

/// A move as contracts see it: the characters of its name and its effect.
pub ghost struct MoveView {
    pub name: Seq<char>,
    pub effect: MoveType,
}

impl View for Move {
    type V = MoveView;

    open spec fn view(&self) -> MoveView {
        MoveView { name: self.name@, effect: self.effect }
    }
}

impl Clone for Move {
    fn clone(&self) -> (copy: Move)
        ensures
            copy == *self,
    {
        Move { name: self.name.clone(), effect: self.effect }
    }
}

/// The views of a sequence of moves, in order.
pub open spec fn move_views(moves: Seq<Move>) -> Seq<MoveView> {
    Seq::new(moves.len(), |i: int| moves[i]@)
}

/// Number of moves in a move set, of which a spirit learns four.
pub const MOVE_SET_SIZE: usize = 8;

/// Number of moves a spirit knows.
pub const MOVES_KNOWN: usize = 4;

/// The effects shared by every player move set, weakest strike first.
pub open spec fn player_effects() -> Seq<MoveType> {
    seq![
        MoveType::DamageOne(4),
        MoveType::DamageOne(7),
        MoveType::DamageOne(10),
        MoveType::DamageMany(3),
        MoveType::DamageMany(6),
        MoveType::Heal(8),
        MoveType::Heal(16),
        MoveType::Defend(2),
    ]
}

/// The effects of the move set that wild spirits draw from.
pub open spec fn enemy_effects() -> Seq<MoveType> {
    seq![
        MoveType::DamageOne(2),
        MoveType::DamageOne(4),
        MoveType::DamageMany(3),
        MoveType::Heal(4),
        MoveType::DamageMany(3),
        MoveType::DamageMany(3),
        MoveType::Heal(4),
        MoveType::Defend(2),
    ]
}

/// The names of the wild spirits' moves.
pub open spec fn enemy_names() -> Seq<Seq<char>> {
    seq![
        "(Fight)"@,
        "(Advance)"@,
        "(Thrash)"@,
        "(Revive)"@,
        "(Thrash)"@,
        "(Thrash)"@,
        "(Revive)"@,
        "(Defend))"@,
    ]
}

/// The names of a player spirit's moves, by element.
pub open spec fn player_names(element: SpiritType) -> Seq<Seq<char>> {
    match element {
        SpiritType::Fire(_) => seq![
            "Blast"@,
            "Scorch"@,
            "Incinerate"@,
            "Inferno"@,
            "Decimate"@,
            "Recombust"@,
            "Resurge"@,
            "Heat"@,
        ],
        SpiritType::Water(_) => seq![
            "Squirt"@,
            "Jet"@,
            "Wave"@,
            "Deluge"@,
            "Tsunami"@,
            "Bubble"@,
            "Refill"@,
            "Raise Tides"@,
        ],
        SpiritType::Slime(_) => seq![
            "Nibble"@,
            "Chomp"@,
            "Consume"@,
            "Pummel"@,
            "Explode"@,
            "Reform"@,
            "Eat"@,
            "Harden"@,
        ],
        SpiritType::Dark(_) => seq![
            "Scold"@,
            "Punish"@,
            "Eviscerate"@,
            "Dominate"@,
            "Destroy"@,
            "Unholy Health"@,
            "Unholy Greed"@,
            "Unholy Armor"@,
        ],
        SpiritType::Light(_) => seq![
            "Slash"@,
            "Bash"@,
            "Avenge"@,
            "Radiant"@,
            "Great Light"@,
            "Heal"@,
            "Resurrect"@,
            "Protect"@,
        ],
    }
}

/// Pairs names with effects, position by position.
pub open spec fn zip_moves(names: Seq<Seq<char>>, effects: Seq<MoveType>) -> Seq<MoveView> {
    Seq::new(names.len(), |i: int| MoveView { name: names[i], effect: effects[i] })
}

/// The move set a new spirit draws its four moves from.
pub open spec fn move_set(element: SpiritType, is_player: bool) -> Seq<MoveView> {
    if is_player {
        zip_moves(player_names(element), player_effects())
    } else {
        zip_moves(enemy_names(), enemy_effects())
    }
}

fn named(name: &str, effect: MoveType) -> (m: Move)
    ensures
        m@ == (MoveView { name: name@, effect }),
{
    Move { name: name.to_owned(), effect }
}

fn player_moves(names: [&str; 8]) -> (moves: [Move; 8])
    ensures
        move_views(moves@) == zip_moves(Seq::new(8, |i: int| names@[i]@), player_effects()),
{
    let moves = [
        named(names[0], MoveType::DamageOne(4)),
        named(names[1], MoveType::DamageOne(7)),
        named(names[2], MoveType::DamageOne(10)),
        named(names[3], MoveType::DamageMany(3)),
        named(names[4], MoveType::DamageMany(6)),
        named(names[5], MoveType::Heal(8)),
        named(names[6], MoveType::Heal(16)),
        named(names[7], MoveType::Defend(2)),
    ];
    assert(move_views(moves@) =~= zip_moves(Seq::new(8, |i: int| names@[i]@), player_effects()));
    moves
}

/// The moves of wild spirits.
pub fn enemy_moves() -> (moves: [Move; 8])
    ensures
        move_views(moves@) == move_set(SpiritType::Fire(0), false),
{
    let moves = [
        named("(Fight)", MoveType::DamageOne(2)),
        named("(Advance)", MoveType::DamageOne(4)),
        named("(Thrash)", MoveType::DamageMany(3)),
        named("(Revive)", MoveType::Heal(4)),
        named("(Thrash)", MoveType::DamageMany(3)),
        named("(Thrash)", MoveType::DamageMany(3)),
        named("(Revive)", MoveType::Heal(4)),
        named("(Defend))", MoveType::Defend(2)),
    ];
    assert(move_views(moves@) =~= move_set(SpiritType::Fire(0), false));
    moves
}

/// The moves of a player's fire spirit.
pub fn fire_moves() -> (moves: [Move; 8])
    ensures
        move_views(moves@) == move_set(SpiritType::Fire(0), true),
{
    let moves = player_moves(
        ["Blast", "Scorch", "Incinerate", "Inferno", "Decimate", "Recombust", "Resurge", "Heat"],
    );
    assert(move_views(moves@) =~= move_set(SpiritType::Fire(0), true));
    moves
}

/// The moves of a player's water spirit.
pub fn water_moves() -> (moves: [Move; 8])
    ensures
        move_views(moves@) == move_set(SpiritType::Water(0), true),
{
    let moves = player_moves(
        ["Squirt", "Jet", "Wave", "Deluge", "Tsunami", "Bubble", "Refill", "Raise Tides"],
    );
    assert(move_views(moves@) =~= move_set(SpiritType::Water(0), true));
    moves
}

/// The moves of a player's slime spirit.
pub fn slime_moves() -> (moves: [Move; 8])
    ensures
        move_views(moves@) == move_set(SpiritType::Slime(0), true),
{
    let moves = player_moves(
        ["Nibble", "Chomp", "Consume", "Pummel", "Explode", "Reform", "Eat", "Harden"],
    );
    assert(move_views(moves@) =~= move_set(SpiritType::Slime(0), true));
    moves
}

/// The moves of a player's dark spirit.
pub fn dark_moves() -> (moves: [Move; 8])
    ensures
        move_views(moves@) == move_set(SpiritType::Dark(0), true),
{
    let moves = player_moves(
        [
            "Scold",
            "Punish",
            "Eviscerate",
            "Dominate",
            "Destroy",
            "Unholy Health",
            "Unholy Greed",
            "Unholy Armor",
        ],
    );
    assert(move_views(moves@) =~= move_set(SpiritType::Dark(0), true));
    moves
}

/// The moves of a player's light spirit.
pub fn light_moves() -> (moves: [Move; 8])
    ensures
        move_views(moves@) == move_set(SpiritType::Light(0), true),
{
    let moves = player_moves(
        ["Slash", "Bash", "Avenge", "Radiant", "Great Light", "Heal", "Resurrect", "Protect"],
    );
    assert(move_views(moves@) =~= move_set(SpiritType::Light(0), true));
    moves
}

/// The move set for a new spirit of the given element and side.
pub fn moves_for(element: &SpiritType, is_player: bool) -> (moves: [Move; 8])
    ensures
        move_views(moves@) == move_set(*element, is_player),
{
    if !is_player {
        enemy_moves()
    } else {
        match element {
            SpiritType::Fire(_) => fire_moves(),
            SpiritType::Water(_) => water_moves(),
            SpiritType::Slime(_) => slime_moves(),
            SpiritType::Dark(_) => dark_moves(),
            SpiritType::Light(_) => light_moves(),
        }
    }
}

} // verus!
