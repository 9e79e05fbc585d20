//! The battle: its combatants and the state machine that tracks whose move
//! is selected, whether the player has committed, whether the enemies still
//! have to answer, and what the combat log shows.

use vstd::prelude::*;
use crate::effects::{CombatEffect, CombatEffects, TICK_WINDOW};
use crate::moves::{Move, MOVES_KNOWN};
use crate::spirit::Spirit;

verus! {

/// After the player's attack this many enemy turns are pending, counted from
/// zero.
pub const ENEMY_COUNTDOWN: u32 = 2;

/// Marks a combatant as the player's, and whether it is the one fighting.
#[derive(Clone, Copy, Debug)]
pub struct PlayerSpirit {
    pub active: bool,
}

/// The turn and phase of a battle.
#[derive(Clone, Debug)]
pub struct BattleState {
    pub in_combat: bool,
    pub retreating: bool,
    /// Which living enemy acts next, while enemy turns are pending.
    pub enemy_attacking: Option<u32>,
    /// The player has committed the selected move.
    pub activate: bool,
    /// Effects were queued and may not have drained yet.
    pub animating: bool,
    pub combat_move: Option<usize>,
    /// The combatant that receives the player's input.
    pub active_entity: Option<usize>,
    /// The encounter this battle came from, as its owner names it.
    pub encounter_entity: Option<u32>,
    /// The combat-log line on display.
    pub notification: Option<String>,
}

/// One participant of a battle.
#[derive(Clone, Debug)]
pub struct Combatant {
    pub spirit: Spirit,
    /// Present on the player's spirits, absent on enemies.
    pub player: Option<PlayerSpirit>,
    pub effects: CombatEffects,
}

/// A combatant as contracts see it.
pub ghost struct CombatantView {
    pub spirit: Spirit,
    pub player: Option<PlayerSpirit>,
    pub effects: Seq<CombatEffect>,
    pub duration: u64,
}

impl View for Combatant {
    type V = CombatantView;

    open spec fn view(&self) -> CombatantView {
        CombatantView {
            spirit: self.spirit,
            player: self.player,
            effects: self.effects.effects@,
            duration: self.effects.duration,
        }
    }
}

impl CombatantView {
    pub open spec fn is_ally(self) -> bool {
        self.player is Some
    }

    pub open spec fn is_enemy(self) -> bool {
        self.player is None
    }

    pub open spec fn alive(self) -> bool {
        self.spirit.health > 0
    }

    /// The player's spirit that is marked as fighting.
    pub open spec fn is_active(self) -> bool {
        self.player matches Some(mark) && mark.active
    }

    /// The combatant with one more effect queued. An empty queue starts a
    /// new tick window.
    pub open spec fn enqueued(self, effect: CombatEffect) -> CombatantView {
        CombatantView {
            effects: self.effects.push(effect),
            duration: if self.effects.len() > 0 {
                self.duration
            } else {
                TICK_WINDOW
            },
            ..self
        }
    }
}

/// The views of the combatants, in order.
pub open spec fn combatant_views(combatants: Seq<Combatant>) -> Seq<CombatantView> {
    Seq::new(combatants.len(), |i: int| combatants[i]@)
}

/// Whether any combatant has effects queued.
pub open spec fn any_queue_active(combatants: Seq<CombatantView>) -> bool {
    exists|i: int| 0 <= i < combatants.len() && (#[trigger] combatants[i]).effects.len() > 0
}

/// How many enemies with health left a line-up holds.
pub open spec fn living_enemies(combatants: Seq<CombatantView>) -> nat
    decreases combatants.len(),
{
    if combatants.len() == 0 {
        0
    } else {
        living_enemies(combatants.drop_last()) + if combatants.last().is_enemy()
            && combatants.last().alive() {
            1nat
        } else {
            0nat
        }
    }
}

/// How many living enemies stand before position `i`.
pub open spec fn living_before(combatants: Seq<CombatantView>, i: int) -> nat {
    living_enemies(combatants.take(i))
}

/// The player's spirit that fights: the last one in the line-up that is
/// marked active and has health left.
pub open spec fn active_ally(combatants: Seq<CombatantView>) -> Option<int>
    decreases combatants.len(),
{
    if combatants.len() == 0 {
        None
    } else if combatants.last().is_active() && combatants.last().alive() {
        Some(combatants.len() - 1)
    } else {
        active_ally(combatants.drop_last())
    }
}

/// The phase before anything has happened.
pub open spec fn fresh_state() -> BattleState {
    BattleState {
        in_combat: true,
        retreating: false,
        enemy_attacking: None,
        activate: false,
        animating: false,
        combat_move: None,
        active_entity: None,
        encounter_entity: None,
        notification: None,
    }
}

/// A battle: its phase and its combatants, enemies and allies alike, each
/// known by its position in the line-up.
#[derive(Clone, Debug)]
pub struct Battle {
    pub state: BattleState,
    pub combatants: Vec<Combatant>,
}

impl Battle {
    /// The combatants as contracts see them.
    pub open spec fn line_up(self) -> Seq<CombatantView> {
        combatant_views(self.combatants@)
    }

    /// Every spirit is well formed, input is held back while any effect is
    /// queued, and a move stands committed only while nothing is queued and
    /// no enemy turn is pending.
    pub open spec fn well_formed(self) -> bool {
        &&& forall|i: int|
            0 <= i < self.combatants@.len() ==> (#[trigger] self.combatants@[i]).spirit.well_formed()
        &&& any_queue_active(self.line_up()) ==> self.state.animating
        &&& self.state.activate ==> !any_queue_active(self.line_up()) && self.state.enemy_attacking
            is None
    }

    /// Whether the battle is well formed.
    pub fn check(&self) -> (ok: bool)
        ensures
            ok == self.well_formed(),
    {
        let mut queued = false;
        let mut i: usize = 0;
        while i < self.combatants.len()
            invariant
                i <= self.combatants@.len(),
                forall|j: int| 0 <= j < i ==> (#[trigger] self.combatants@[j]).spirit.well_formed(),
                queued == any_queue_active(self.line_up().take(i as int)),
            decreases self.combatants@.len() - i,
        {
            if !self.combatants[i].spirit.check() {
                return false;
            }
            proof {
                let seen = self.line_up().take(i as int);
                let next = self.line_up().take(i + 1);
                assert(next[i as int] == self.combatants@[i as int]@);
                if any_queue_active(seen) {
                    let j = choose|j: int| 0 <= j < seen.len() && (#[trigger] seen[j]).effects.len() > 0;
                    assert(next[j].effects.len() > 0);
                }
                if any_queue_active(next) && self.combatants@[i as int]@.effects.len() == 0 {
                    let j = choose|j: int| 0 <= j < next.len() && (#[trigger] next[j]).effects.len() > 0;
                    assert(seen[j].effects.len() > 0);
                }
            }
            if self.combatants[i].effects.active() {
                queued = true;
            }
            i = i + 1;
        }
        proof {
            assert(self.line_up().take(i as int) =~= self.line_up());
        }
        (!queued || self.state.animating) && (!self.state.activate || (!queued
            && self.state.enemy_attacking.is_none()))
    }

    /// A battle with no combatants yet.
    pub fn new() -> (battle: Battle)
        ensures
            battle.combatants@.len() == 0,
            battle.state == fresh_state(),
            battle.well_formed(),
    {
        Battle { state: BattleState::new(), combatants: Vec::new() }
    }

    /// The line-up at the start of a battle: the enemies as they come,
    /// without a mark, then the player's spirits, of which the first is
    /// marked as fighting. Nothing is queued on anyone.
    pub open spec fn opening(enemies: Seq<Spirit>, roster: Seq<Spirit>) -> Seq<CombatantView> {
        Seq::new(
            enemies.len() + roster.len(),
            |i: int|
                if i < enemies.len() {
                    CombatantView {
                        spirit: enemies[i],
                        player: None,
                        effects: Seq::empty(),
                        duration: TICK_WINDOW,
                    }
                } else {
                    CombatantView {
                        spirit: roster[i - enemies.len()],
                        player: Some(PlayerSpirit { active: i == enemies.len() }),
                        effects: Seq::empty(),
                        duration: TICK_WINDOW,
                    }
                },
        )
    }

    /// Starts a battle between the spirits of an encounter and the player's
    /// roster. The cursor is on the first move of the player's first spirit,
    /// which is the one that fights.
    pub fn begin(encounter: u32, enemies: &Vec<Spirit>, roster: &Vec<Spirit>) -> (battle: Battle)
        requires
            forall|i: int| 0 <= i < enemies@.len() ==> (#[trigger] enemies@[i]).well_formed(),
            forall|i: int| 0 <= i < roster@.len() ==> (#[trigger] roster@[i]).well_formed(),
        ensures
            battle.well_formed(),
            battle.line_up() == Self::opening(enemies@, roster@),
            battle.state.in_combat,
            !battle.state.retreating,
            battle.state.enemy_attacking is None,
            !battle.state.activate,
            !battle.state.animating,
            battle.state.notification is None,
            battle.state.encounter_entity == Some(encounter),
            battle.state.combat_move == if roster@.len() > 0 {
                Some(0usize)
            } else {
                None
            },
            battle.state.active_entity == if roster@.len() > 0 {
                Some(enemies@.len() as usize)
            } else {
                None
            },
    {
        let mut battle = Battle::new();
        battle.state.encounter_entity = Some(encounter);
        let mut i: usize = 0;
        while i < enemies.len()
            invariant
                i <= enemies@.len(),
                battle.combatants@.len() == i,
                battle.state == (BattleState { encounter_entity: Some(encounter), ..fresh_state() }),
                forall|j: int|
                    0 <= j < i ==> (#[trigger] battle.combatants@[j])@ == Self::opening(
                        enemies@,
                        roster@,
                    )[j],
            decreases enemies@.len() - i,
        {
            battle.combatants.push(
                Combatant {
                    spirit: enemies[i].duplicate(),
                    player: None,
                    effects: CombatEffects::new(Vec::new()),
                },
            );
            i = i + 1;
        }
        let mut k: usize = 0;
        while k < roster.len()
            invariant
                k <= roster@.len(),
                battle.combatants@.len() == enemies@.len() + k,
                battle.state == (BattleState { encounter_entity: Some(encounter), ..fresh_state() }),
                forall|j: int|
                    0 <= j < enemies@.len() + k ==> (#[trigger] battle.combatants@[j])@
                        == Self::opening(enemies@, roster@)[j],
            decreases roster@.len() - k,
        {
            battle.combatants.push(
                Combatant {
                    spirit: roster[k].duplicate(),
                    player: Some(PlayerSpirit { active: k == 0 }),
                    effects: CombatEffects::new(Vec::new()),
                },
            );
            k = k + 1;
        }
        if roster.len() > 0 {
            battle.state.combat_move = Some(0);
            battle.state.active_entity = Some(enemies.len());
        }
        proof {
            assert(battle.line_up() =~= Self::opening(enemies@, roster@));
            assert forall|j: int| 0 <= j < battle.combatants@.len() implies (
            #[trigger] battle.combatants@[j]).spirit.well_formed() by {
                assert(battle.combatants@[j]@ == Self::opening(enemies@, roster@)[j]);
                if j < enemies@.len() {
                    assert(enemies@[j].well_formed());
                } else {
                    assert(roster@[j - enemies@.len()].well_formed());
                }
            }
            assert(!any_queue_active(battle.line_up()));
        }
        battle
    }

    /// Commits the selected move, where that is allowed. While any effect is
    /// queued, a line is on display or enemy turns are pending, nothing
    /// changes.
    pub fn want_attack(&mut self)
        requires
            old(self).well_formed(),
        ensures
            final(self).well_formed(),
            final(self).combatants == old(self).combatants,
            final(self).state == if old(self).state.may_commit() {
                BattleState { activate: true, ..old(self).state }
            } else {
                old(self).state
            },
            any_queue_active(old(self).line_up()) ==> *final(self) == *old(self),
    {
        self.state.want_attack();
    }

    /// The position of the player's fighting spirit.
    pub fn get_active_ally(&self) -> (found: Option<usize>)
        ensures
            found is Some == active_ally(self.line_up()) is Some,
            found matches Some(i) ==> active_ally(self.line_up()) == Some(i as int)
                && i < self.combatants@.len(),
    {
        let mut found: Option<usize> = None;
        let mut i: usize = 0;
        while i < self.combatants.len()
            invariant
                i <= self.combatants.len(),
                found is Some == active_ally(self.line_up().take(i as int)) is Some,
                found matches Some(k) ==> active_ally(self.line_up().take(i as int)) == Some(
                    k as int,
                ) && k < i,
            decreases self.combatants.len() - i,
        {
            proof {
                assert(self.line_up().take(i + 1).drop_last() =~= self.line_up().take(i as int));
            }
            let combatant = &self.combatants[i];
            match combatant.player {
                Some(mark) => {
                    if combatant.spirit.health > 0 && mark.active {
                        found = Some(i);
                    }
                },
                None => {},
            }
            i = i + 1;
        }
        proof {
            assert(self.line_up().take(i as int) =~= self.line_up());
        }
        found
    }
}

impl BattleState {
    /// The state at the start of a battle.
    pub fn new() -> (state: BattleState)
        ensures
            state == fresh_state(),
    {
        BattleState {
            in_combat: true,
            retreating: false,
            enemy_attacking: None,
            activate: false,
            animating: false,
            combat_move: None,
            active_entity: None,
            encounter_entity: None,
            notification: None,
        }
    }

    pub open spec fn spec_notifying(&self) -> bool {
        self.notification is Some
    }

    /// Whether a combat-log line is on display.
    #[verifier::when_used_as_spec(spec_notifying)]
    pub fn notifying(&self) -> (yes: bool)
        ensures
            yes == self.spec_notifying(),
    {
        self.notification.is_some()
    }

    /// Puts a line on display.
    pub fn notify(&mut self, notification: String)
        ensures
            *final(self) == (BattleState { notification: Some(notification), ..*old(self) }),
    {
        self.notification = Some(notification);
    }

    /// Takes the line off display.
    pub fn clear_notification(&mut self)
        ensures
            *final(self) == (BattleState { notification: None, ..*old(self) }),
    {
        self.notification = None;
    }

    /// Input is held back while effects drain or a line is on display.
    pub open spec fn spec_animating(&self) -> bool {
        self.animating || self.notification is Some
    }

    /// Whether input is held back.
    #[verifier::when_used_as_spec(spec_animating)]
    pub fn animating(&self) -> (yes: bool)
        ensures
            yes == self.spec_animating(),
    {
        self.animating || self.notifying()
    }

    /// Records whether effects are still draining.
    pub fn set_animating(&mut self, animating: bool)
        ensures
            *final(self) == (BattleState { animating, ..*old(self) }),
    {
        self.animating = animating;
    }

    /// Whether the player may commit a move now: no enemy turn is pending and
    /// nothing holds input back.
    pub open spec fn may_commit(self) -> bool {
        self.enemy_attacking is None && !self.spec_animating()
    }

    /// Commits the selected move, where that is allowed; otherwise nothing
    /// changes.
    pub fn want_attack(&mut self)
        ensures
            *final(self) == if old(self).may_commit() {
                BattleState { activate: true, ..*old(self) }
            } else {
                *old(self)
            },
    {
        if self.enemy_attacking.is_none() && !self.animating() {
            self.activate = true;
        }
    }

    /// Ends the player's attack: the commitment is spent, the enemies are
    /// due, and input is held back until the effects have drained.
    pub fn finish_attack(&mut self)
        ensures
            *final(self) == (BattleState {
                activate: false,
                enemy_attacking: Some(ENEMY_COUNTDOWN),
                animating: true,
                ..*old(self)
            }),
    {
        self.activate = false;
        self.enemy_attacking = Some(ENEMY_COUNTDOWN);
        self.animating = true;
    }

    /// Withdraws the fighting spirit so that the player can send in another.
    pub fn retreat(&mut self)
        ensures
            *final(self) == (BattleState { active_entity: None, retreating: true, ..*old(self) }),
    {
        self.active_entity = None;
        self.retreating = true;
    }

    /// The move under the cursor of the spirit that receives input, if both
    /// exist.
    pub open spec fn spec_get_move(self, spirits: Seq<Combatant>) -> Option<Move> {
        match (self.active_entity, self.combat_move) {
            (Some(entity), Some(index)) => {
                if entity < spirits.len() && index < MOVES_KNOWN {
                    Some(spirits[entity as int].spirit.moves@[index as int])
                } else {
                    None
                }
            },
            _ => None,
        }
    }

    /// The move under the cursor of the spirit that receives input.
    pub fn get_move(&self, spirits: &Vec<Combatant>) -> (selected: Option<Move>)
        ensures
            selected == self.spec_get_move(spirits@),
    {
        match (self.active_entity, self.combat_move) {
            (Some(entity), Some(index)) => {
                if entity < spirits.len() && index < MOVES_KNOWN {
                    Some(spirits[entity].spirit.moves[index].clone())
                } else {
                    None
                }
            },
            _ => None,
        }
    }
}

} // verus!
