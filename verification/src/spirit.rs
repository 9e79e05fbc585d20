//! Spirits: the combatants, their creation and evolution, and the amount a
//! move delivers.

use vstd::prelude::*;
use crate::chance::{random_below, shuffle};
use crate::element::{SpiritType, MAX_LEVEL};
use crate::moves::{move_set, move_views, moves_for, Move, MoveType, MOVES_KNOWN, MOVE_SET_SIZE};

verus! {

/// A combatant.
#[derive(Debug)]
pub struct Spirit {
    pub element: SpiritType,
    pub max_health: u32,
    pub health: u32,
    pub defense: i32,
    pub base_defense: i32,
    pub attack: u32,
    pub stamina: u32,
    pub moves: [Move; 4],
}

/// Largest swing of the random jitter on damage, in thousandths.
pub const JITTER_LIMIT: i32 = 100;

/// Faces of the die that the jitter is drawn with: one for each jitter from
/// the limit below nothing to the limit above.
pub const JITTER_FACES: u32 = 201;

/// No attack or heal delivers more than this in one use: the most an amount
/// can hold.
pub const AMOUNT_CAP: u32 = 0xffff_ffff;

impl Clone for Spirit {
    fn clone(&self) -> (copy: Spirit)
        ensures
            copy == *self,
    {
        self.duplicate()
    }
}

/// The dice behind a new spirit's stats.
#[derive(Clone, Copy, Debug)]
pub struct StatRolls {
    /// Added to the base health, 0 to 9.
    pub health: u32,
    /// A player spirit's resting defense, 0 to 4.
    pub defense: i32,
    /// A player spirit's attack, 0 to 14.
    pub attack: u32,
    /// A player spirit's stamina, 0 to 14.
    pub stamina: u32,
}

impl StatRolls {
    /// Every die shows a face it has.
    pub open spec fn valid(self) -> bool {
        &&& self.health <= 9
        &&& 0 <= self.defense <= 4
        &&& self.attack <= 14
        &&& self.stamina <= 14
    }
}

/// Evolving multiplies maximum health by four each level.
pub open spec fn growth(levels: nat) -> nat
    decreases levels,
{
    if levels == 0 {
        1
    } else {
        4 * growth((levels - 1) as nat)
    }
}

/// A damaging move's amount before the defender's defense is taken off.
/// The base grows by a forty-fifth of itself for each point of power above
/// eight and shrinks likewise below; the jitter adds its thousandths of the
/// result; each point of advantage adds half of that again. The three
/// factors are put over their common denominator and the quotient is
/// rounded down. `power` is attack times one more than the level.
pub open spec fn raw_damage(base: int, power: int, jitter: int, advantage: int) -> int {
    (base * (power + 37) * (1000 + jitter) * (2 + advantage)) / 90000
}

/// Amounts are kept between one and the cap.
pub open spec fn clamp_amount(amount: int) -> int {
    if amount < 1 {
        1
    } else if amount > AMOUNT_CAP {
        AMOUNT_CAP as int
    } else {
        amount
    }
}

impl Spirit {
    /// Health within its bound, defense not below its resting value, and a
    /// level the game knows.
    pub open spec fn well_formed(self) -> bool {
        &&& self.health <= self.max_health
        &&& self.base_defense <= self.defense
        &&& self.element.well_formed()
    }

    pub open spec fn spec_level(&self) -> u32 {
        self.element.spec_level()
    }

    /// Attack scaled by evolution.
    pub open spec fn power(self) -> int {
        self.attack * (self.element.spec_level() + 1)
    }

    /// The spirit one level up: four times the maximum health, fully healed,
    /// defense back at rest, everything else kept.
    pub open spec fn evolved(self) -> Spirit {
        Spirit {
            element: self.element.at_level((self.element.spec_level() + 1) as u32),
            max_health: (self.max_health * 4) as u32,
            health: (self.max_health * 4) as u32,
            defense: self.base_defense,
            base_defense: self.base_defense,
            attack: self.attack,
            stamina: self.stamina,
            moves: self.moves,
        }
    }

    /// What a spirit created from the given dice looks like. `order` lists
    /// positions in the move set; the spirit learns the moves at the first
    /// four.
    pub open spec fn fresh(
        self,
        element: SpiritType,
        is_player: bool,
        rolls: StatRolls,
        order: Seq<usize>,
    ) -> bool {
        &&& self.element == element
        &&& self.health == self.max_health
        &&& self.defense == self.base_defense
        &&& if is_player {
            &&& self.max_health == (10 + rolls.health) * growth(element.spec_level() as nat)
            &&& self.base_defense == rolls.defense
            &&& self.attack == rolls.attack
            &&& self.stamina == rolls.stamina
        } else {
            &&& self.max_health == (1 + element.spec_level()) * 10 + rolls.health
            &&& self.base_defense == 2
            &&& self.attack == 8
            &&& self.stamina == 8
        }
        &&& forall|k: int|
            0 <= k < 4 ==> (#[trigger] self.moves@[k])@ == move_set(element, is_player)[order[k] as int]
    }

    /// Creates a spirit of the given element. A player's spirit starts from
    /// the element's first level and evolves up to the level asked for; a
    /// wild one is made at its level directly. Stats and moves are drawn at
    /// random.
    pub fn new(element: SpiritType, is_player: bool) -> (spirit: Spirit)
        requires
            element.well_formed(),
        ensures
            spirit.newly_made(element, is_player),
    {
        let rolls = StatRolls {
            health: (random_below(1000) + random_below(1000)) / 200,
            defense: random_below(5) as i32,
            attack: random_below(15),
            stamina: random_below(15),
        };
        let order = shuffled_positions();
        let spirit = Spirit::from_rolls(element, is_player, rolls, &order);
        assert(rolls.valid() && valid_order(order@) && spirit.fresh(
            element,
            is_player,
            rolls,
            order@,
        ));
        spirit
    }

    /// Creates the spirit that the given dice and move order stand for.
    pub fn from_rolls(element: SpiritType, is_player: bool, rolls: StatRolls, order: &Vec<usize>) -> (spirit:
        Spirit)
        requires
            element.well_formed(),
            rolls.valid(),
            order.len() >= MOVES_KNOWN,
            forall|k: int| 0 <= k < MOVES_KNOWN ==> order[k] < MOVE_SET_SIZE,
        ensures
            spirit.fresh(element, is_player, rolls, order@),
            spirit.well_formed(),
    {
        let table = moves_for(&element, is_player);
        let moves = [
            table[order[0]].clone(),
            table[order[1]].clone(),
            table[order[2]].clone(),
            table[order[3]].clone(),
        ];
        proof {
            let views = move_views(table@);
            assert forall|k: int| 0 <= k < 4 implies (#[trigger] moves@[k])@ == move_set(
                element,
                is_player,
            )[order[k] as int] by {
                assert(views[order[k] as int] == table@[order[k] as int]@);
            }
        }
        if !is_player {
            Spirit {
                element,
                max_health: (1 + element.level()) * 10 + rolls.health,
                health: (1 + element.level()) * 10 + rolls.health,
                defense: 2,
                base_defense: 2,
                attack: 8,
                stamina: 8,
                moves,
            }
        } else {
            let mut spirit = Spirit {
                element: element.base_level(),
                max_health: 10 + rolls.health,
                health: 10 + rolls.health,
                defense: rolls.defense,
                base_defense: rolls.defense,
                attack: rolls.attack,
                stamina: rolls.stamina,
                moves,
            };
            let ghost learned = spirit.moves;
            let target: u32 = element.level();
            let mut reached: u32 = 0;
            while reached < target
                invariant
                    reached <= target <= MAX_LEVEL,
                    target == element.spec_level(),
                    rolls.valid(),
                    spirit.element == element.at_level(reached),
                    spirit.max_health == (10 + rolls.health) * growth(reached as nat),
                    spirit.health == spirit.max_health,
                    spirit.defense == rolls.defense,
                    spirit.base_defense == rolls.defense,
                    spirit.attack == rolls.attack,
                    spirit.stamina == rolls.stamina,
                    spirit.moves == learned,
                decreases target - reached,
            {
                proof {
                    let stage = reached as nat;
                    let start = 10 + rolls.health;
                    assert(growth(stage) <= 4 && growth(stage + 1) == 4 * growth(stage)) by {
                        reveal_with_fuel(growth, 3);
                    }
                    assert(start * growth(stage) <= 76 && (start * growth(stage)) * 4 == start
                        * growth(stage + 1)) by (nonlinear_arith)
                        requires
                            0 <= start <= 19,
                            growth(stage) <= 4,
                            growth(stage + 1) == 4 * growth(stage),
                    ;
                }
                spirit = next_spirit(spirit);
                reached = reached + 1;
            }
            spirit
        }
    }

    /// A well-formed spirit as some throw of the dice makes it for the
    /// element and side.
    pub open spec fn newly_made(self, element: SpiritType, is_player: bool) -> bool {
        &&& self.well_formed()
        &&& exists|rolls: StatRolls, order: Seq<usize>|
            rolls.valid() && valid_order(order) && #[trigger] self.fresh(
                element,
                is_player,
                rolls,
                order,
            )
    }

    #[verifier::when_used_as_spec(spec_level)]
    pub fn level(&self) -> (level: u32)
        ensures
            level == self.element.spec_level(),
    {
        self.element.level()
    }

    /// Whether the spirit is well formed.
    pub fn check(&self) -> (ok: bool)
        ensures
            ok == self.well_formed(),
    {
        self.health <= self.max_health && self.base_defense <= self.defense && self.element.check()
    }

    /// A copy of the spirit.
    pub fn duplicate(&self) -> (copy: Spirit)
        ensures
            copy == *self,
    {
        let copy = Spirit {
            element: self.element,
            max_health: self.max_health,
            health: self.health,
            defense: self.defense,
            base_defense: self.base_defense,
            attack: self.attack,
            stamina: self.stamina,
            moves: [
                self.moves[0].clone(),
                self.moves[1].clone(),
                self.moves[2].clone(),
                self.moves[3].clone(),
            ],
        };
        assert(copy.moves@ =~= self.moves@);
        assert(copy.moves =~= self.moves);
        copy
    }
}

impl MoveType {
    /// What the move delivers when `attacker` uses it on `defender` with the
    /// given jitter: damage is the raw amount less the square of the
    /// defender's defense (a quarter of it for a strike at one target), a
    /// heal is the base plus the attacker's stamina, both kept between one
    /// and the cap; a defense move delivers its base as it is.
    pub open spec fn spec_amount(self, attacker: Spirit, defender: Spirit, jitter: int) -> int {
        let advantage = attacker.element.spec_type_advantage(defender.element);
        let guard = defender.defense * defender.defense;
        match self {
            MoveType::DamageMany(base) => clamp_amount(
                raw_damage(base as int, attacker.power(), jitter, advantage) - guard,
            ),
            MoveType::DamageOne(base) => clamp_amount(
                raw_damage(base as int, attacker.power(), jitter, advantage) - guard / 4,
            ),
            MoveType::Heal(base) => clamp_amount(base + attacker.stamina),
            MoveType::Defend(base) => base as int,
        }
    }

    /// Whether the move's amount depends on the jitter.
    pub open spec fn damaging(&self) -> bool {
        self is DamageMany || self is DamageOne
    }

    /// The amount for a known jitter.
    pub fn amount_with_jitter(&self, attacker: &Spirit, defender: &Spirit, jitter: i32) -> (amount:
        u32)
        requires
            attacker.element.well_formed(),
            -JITTER_LIMIT <= jitter <= JITTER_LIMIT,
        ensures
            amount == self.spec_amount(*attacker, *defender, jitter as int),
            !(self is Defend) ==> amount >= 1,
    {
        match self {
            MoveType::DamageMany(base) => {
                let raw = scaled_damage(*base, attacker, &defender.element, jitter);
                reduce_and_clamp(raw, square(defender.defense))
            },
            MoveType::DamageOne(base) => {
                let raw = scaled_damage(*base, attacker, &defender.element, jitter);
                reduce_and_clamp(raw, square(defender.defense) / 4)
            },
            MoveType::Heal(base) => {
                let sum: u64 = *base as u64 + attacker.stamina as u64;
                reduce_and_clamp(sum as u128, 0)
            },
            MoveType::Defend(base) => *base,
        }
    }

    /// The amount with a freshly drawn jitter. Only damage is jittered.
    pub fn actual_amount(&self, attacker: &Spirit, defender: &Spirit) -> (amount: u32)
        requires
            attacker.element.well_formed(),
        ensures
            exists|jitter: int|
                -JITTER_LIMIT <= jitter <= JITTER_LIMIT && amount == #[trigger] self.spec_amount(
                    *attacker,
                    *defender,
                    jitter,
                ),
            !self.damaging() ==> amount == self.spec_amount(*attacker, *defender, 0),
            !(self is Defend) ==> amount >= 1,
    {
        let jitter = if self.is_damaging() {
            draw_jitter()
        } else {
            0
        };
        self.amount_with_jitter(attacker, defender, jitter)
    }

    /// Whether the move's amount depends on the jitter.
    #[verifier::when_used_as_spec(damaging)]
    pub fn is_damaging(&self) -> (yes: bool)
        ensures
            yes == self.damaging(),
    {
        match self {
            MoveType::DamageMany(_) => true,
            MoveType::DamageOne(_) => true,
            _ => false,
        }
    }
}

/// Draws the jitter for one use of a damaging move, in thousandths: a die
/// with one face for each jitter within the limit is thrown, and the jitter
/// is what the face stands for. Which face comes up is left to chance, so
/// the limit is all that holds of every draw.
pub fn draw_jitter() -> (jitter: i32)
    ensures
        -JITTER_LIMIT <= jitter <= JITTER_LIMIT,
{
    let roll: u32 = random_below(JITTER_FACES);
    jitter_from_roll(roll)
}

/// The jitter that a face of the jitter die stands for: the faces count up
/// from the largest loss to the largest gain, the middle face standing for
/// none.
pub open spec fn jitter_of_roll(roll: int) -> int {
    roll - JITTER_LIMIT
}

/// The jitter that a face of the jitter die stands for.
pub fn jitter_from_roll(roll: u32) -> (jitter: i32)
    requires
        roll < JITTER_FACES,
    ensures
        jitter == jitter_of_roll(roll as int),
        -JITTER_LIMIT <= jitter <= JITTER_LIMIT,
{
    roll as i32 - JITTER_LIMIT
}

fn square(defense: i32) -> (squared: u128)
    ensures
        squared == defense * defense,
{
    let wide: i64 = defense as i64;
    assert(0 <= wide * wide <= 0x4000_0000_0000_0000) by (nonlinear_arith)
        requires
            -0x8000_0000 <= wide <= 0x7fff_ffff,
    ;
    (wide * wide) as u128
}

fn scaled_damage(base: u32, attacker: &Spirit, against: &SpiritType, jitter: i32) -> (raw: u128)
    requires
        attacker.element.well_formed(),
        -JITTER_LIMIT <= jitter <= JITTER_LIMIT,
    ensures
        raw == raw_damage(
            base as int,
            attacker.power(),
            jitter as int,
            attacker.element.spec_type_advantage(*against),
        ),
{
    let level: u32 = attacker.element.level();
    let advantage: i32 = attacker.element.type_advantage(against);
    assert(attacker.attack * (level + 1) <= 0xffff_ffff * 3) by (nonlinear_arith)
        requires
            attacker.attack <= 0xffff_ffff,
            level <= 2,
    ;
    let power: u128 = attacker.attack as u128 * (level as u128 + 1);
    let reach: u128 = power + 37;
    let swing: u128 = (1000 + jitter) as u128;
    let edge: u128 = (2 + advantage) as u128;
    assert(base * reach <= 0xffff_ffff * 0x3_0000_0022) by (nonlinear_arith)
        requires
            base <= 0xffff_ffff,
            0 <= reach <= 0x3_0000_0022,
    ;
    let scaled: u128 = base as u128 * reach;
    assert(scaled * swing <= 0xffff_ffff * 0x3_0000_0022 * 1100) by (nonlinear_arith)
        requires
            0 <= scaled <= 0xffff_ffff * 0x3_0000_0022,
            0 <= swing <= 1100,
    ;
    let swung: u128 = scaled * swing;
    assert(swung * edge <= 0xffff_ffff * 0x3_0000_0022 * 1100 * 4) by (nonlinear_arith)
        requires
            0 <= swung <= 0xffff_ffff * 0x3_0000_0022 * 1100,
            0 <= edge <= 4,
    ;
    let whole: u128 = swung * edge;
    whole / 90000
}

fn reduce_and_clamp(raw: u128, guard: u128) -> (amount: u32)
    ensures
        amount == clamp_amount(raw - guard),
{
    if raw <= guard {
        1
    } else if raw - guard > AMOUNT_CAP as u128 {
        AMOUNT_CAP
    } else {
        (raw - guard) as u32
    }
}

/// An order lists every position of a move set exactly once.
pub open spec fn valid_order(order: Seq<usize>) -> bool {
    &&& order.len() == MOVE_SET_SIZE
    &&& order.no_duplicates()
    &&& forall|k: int| 0 <= k < order.len() ==> order[k] < MOVE_SET_SIZE
}

/// The positions of a move set in a random order.
pub fn shuffled_positions() -> (order: Vec<usize>)
    ensures
        valid_order(order@),
{
    let mut order: Vec<usize> = vec![0, 1, 2, 3, 4, 5, 6, 7];
    let ghost sorted = order@;
    assert(sorted.no_duplicates());
    shuffle(&mut order);
    proof {
        sorted.to_multiset_ensures();
        order@.to_multiset_ensures();
        sorted.lemma_multiset_has_no_duplicates();
        order@.lemma_multiset_has_no_duplicates_conv();
        assert forall|k: int| 0 <= k < order@.len() implies order@[k] < MOVE_SET_SIZE by {
            assert(order@.contains(order@[k]));
            assert(sorted.to_multiset().count(order@[k]) > 0);
            assert(sorted.contains(order@[k]));
        }
    }
    order
}

/// Makes a new spirit for each element, all for the player or all wild.
pub fn muster(elements: &Vec<SpiritType>, is_player: bool) -> (spirits: Vec<Spirit>)
    requires
        forall|k: int| 0 <= k < elements@.len() ==> (#[trigger] elements@[k]).well_formed(),
    ensures
        spirits@.len() == elements@.len(),
        forall|k: int|
            0 <= k < elements@.len() ==> (#[trigger] spirits@[k]).newly_made(elements@[k], is_player),
{
    let mut spirits: Vec<Spirit> = Vec::new();
    let mut i: usize = 0;
    while i < elements.len()
        invariant
            i <= elements@.len(),
            spirits@.len() == i,
            forall|k: int| 0 <= k < elements@.len() ==> (#[trigger] elements@[k]).well_formed(),
            forall|k: int| 0 <= k < i ==> (#[trigger] spirits@[k]).newly_made(elements@[k], is_player),
        decreases elements@.len() - i,
    {
        spirits.push(Spirit::new(elements[i], is_player));
        i = i + 1;
    }
    spirits
}

/// Whether every spirit of the list is well formed.
pub fn check_all(spirits: &Vec<Spirit>) -> (ok: bool)
    ensures
        ok == forall|i: int| 0 <= i < spirits@.len() ==> (#[trigger] spirits@[i]).well_formed(),
{
    let mut i: usize = 0;
    while i < spirits.len()
        invariant
            i <= spirits@.len(),
            forall|j: int| 0 <= j < i ==> (#[trigger] spirits@[j]).well_formed(),
        decreases spirits@.len() - i,
    {
        if !spirits[i].check() {
            return false;
        }
        i = i + 1;
    }
    true
}

/// Evolves a spirit to the next level.
pub fn next_spirit(spirit: Spirit) -> (next: Spirit)
    requires
        spirit.element.spec_level() < MAX_LEVEL,
        spirit.max_health * 4 <= u32::MAX,
    ensures
        next == spirit.evolved(),
        next.well_formed(),
{
    Spirit {
        element: spirit.element.next_level(),
        max_health: spirit.max_health * 4,
        health: spirit.max_health * 4,
        defense: spirit.base_defense,
        base_defense: spirit.base_defense,
        attack: spirit.attack,
        stamina: spirit.stamina,
        moves: spirit.moves,
    }
}

} // verus!
