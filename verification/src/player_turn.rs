//! The player's turn: a committed move becomes queued effects on its
//! targets.

use vstd::prelude::*;
use crate::battle::{
    active_ally, living_before, Battle, BattleState, CombatantView, ENEMY_COUNTDOWN,
};
use crate::effects::CombatEffect;
use crate::element::SpiritType;
use crate::moves::MoveType;
use crate::spirit::{draw_jitter, Spirit, JITTER_LIMIT};

verus! {

/// A wide attack reaches this many enemies.
pub const WIDE_REACH: usize = 3;

/// What an enemy at position `i` looks like after the attacker's damaging
/// move: the first `reach` living enemies get the damage queued, each with
/// the jitter of its rank among them; a strike at one target also sheds one
/// point of its defense. Everyone else is left as they were.
pub open spec fn struck(
    combatants: Seq<CombatantView>,
    attacker: Spirit,
    effect: MoveType,
    jitters: Seq<int>,
) -> Seq<CombatantView> {
    let reach: nat = if effect is DamageMany {
        WIDE_REACH as nat
    } else {
        1
    };
    Seq::new(
        combatants.len(),
        |i: int|
            {
                let target = combatants[i];
                let rank = living_before(combatants, i);
                if target.is_enemy() && target.alive() && rank < reach {
                    let hit = target.enqueued(
                        CombatEffect::Damage(
                            effect.spec_amount(attacker, target.spirit, jitters[rank as int]) as u32,
                        ),
                    );
                    if effect is DamageOne {
                        hit.enqueued(CombatEffect::ShedDefense(1))
                    } else {
                        hit
                    }
                } else {
                    target
                }
            },
    )
}

/// The effect a spirit queues on itself with a healing or defense move.
pub open spec fn self_effect(effect: MoveType, user: Spirit) -> CombatEffect {
    if effect is Heal {
        CombatEffect::Heal(effect.spec_amount(user, user, 0) as u32)
    } else {
        CombatEffect::Defense(effect.spec_amount(user, user, 0) as u32)
    }
}

/// The line-up after the spirit at `user` has made its move against the
/// enemies or on itself.
pub open spec fn after_player_move(
    combatants: Seq<CombatantView>,
    user: int,
    effect: MoveType,
    jitters: Seq<int>,
) -> Seq<CombatantView> {
    if effect.damaging() {
        struck(combatants, combatants[user].spirit, effect, jitters)
    } else {
        combatants.update(
            user,
            combatants[user].enqueued(self_effect(effect, combatants[user].spirit)),
        )
    }
}

/// Three jitters, each within the limit.
pub open spec fn valid_jitters(jitters: Seq<int>) -> bool {
    &&& jitters.len() == WIDE_REACH
    &&& forall|k: int| 0 <= k < jitters.len() ==> -JITTER_LIMIT <= #[trigger] jitters[k] <= JITTER_LIMIT
}

/// Watches for a committed move and resolves it.
pub struct WatchAttack;

impl WatchAttack {
    /// Whether there is a move to resolve: the player has committed, a move
    /// is under the cursor, and a spirit of the player's is fighting.
    pub open spec fn due(battle: Battle) -> bool {
        &&& battle.state.activate
        &&& battle.state.spec_get_move(battle.combatants@) is Some
        &&& active_ally(battle.line_up()) is Some
    }

    /// Resolves the committed move, drawing the jitter of each strike at
    /// random. Returns the element whose attack sound is to be played, if
    /// any.
    pub fn run(&mut self, battle: &mut Battle) -> (sound: Option<SpiritType>)
        requires
            old(battle).well_formed(),
        ensures
            final(battle).well_formed(),
            !Self::due(*old(battle)) ==> *final(battle) == *old(battle) && sound is None,
            Self::due(*old(battle)) ==> {
                let user = active_ally(old(battle).line_up()).unwrap();
                let effect = old(battle).state.spec_get_move(old(battle).combatants@).unwrap().effect;
                &&& exists|jitters: Seq<int>|
                    valid_jitters(jitters) && final(battle).line_up() == #[trigger] after_player_move(
                        old(battle).line_up(),
                        user,
                        effect,
                        jitters,
                    )
                &&& final(battle).state == (BattleState {
                    activate: false,
                    enemy_attacking: Some(ENEMY_COUNTDOWN),
                    animating: true,
                    ..old(battle).state
                })
                &&& sound == if effect.damaging() {
                    Some(old(battle).combatants@[user].spirit.element)
                } else {
                    None
                }
            },
    {
        let jitters = [draw_jitter(), draw_jitter(), draw_jitter()];
        let sound = Self::resolve(battle, &jitters);
        proof {
            assert(valid_jitters(Seq::new(3, |k: int| jitters@[k] as int)));
        }
        sound
    }

    /// Resolves the committed move with the given jitters, one for each
    /// enemy a wide attack can reach. Returns the element whose attack sound
    /// is to be played, if any.
    pub fn resolve(battle: &mut Battle, jitters: &[i32; 3]) -> (sound: Option<SpiritType>)
        requires
            old(battle).well_formed(),
            forall|k: int| 0 <= k < 3 ==> -JITTER_LIMIT <= #[trigger] jitters@[k] <= JITTER_LIMIT,
        ensures
            final(battle).well_formed(),
            !Self::due(*old(battle)) ==> *final(battle) == *old(battle) && sound is None,
            Self::due(*old(battle)) ==> {
                let user = active_ally(old(battle).line_up()).unwrap();
                let effect = old(battle).state.spec_get_move(old(battle).combatants@).unwrap().effect;
                &&& final(battle).line_up() == after_player_move(
                    old(battle).line_up(),
                    user,
                    effect,
                    Seq::new(3, |k: int| jitters@[k] as int),
                )
                &&& final(battle).state == (BattleState {
                    activate: false,
                    enemy_attacking: Some(ENEMY_COUNTDOWN),
                    animating: true,
                    ..old(battle).state
                })
                &&& sound == if effect.damaging() {
                    Some(old(battle).combatants@[user].spirit.element)
                } else {
                    None
                }
            },
    {
        if !battle.state.activate {
            return None;
        }
        let my_move = battle.state.get_move(&battle.combatants);
        let player = battle.get_active_ally();
        match (player, my_move) {
            (Some(player), Some(my_move)) => {
                let attacker = battle.combatants[player].spirit.duplicate();
                let effect = my_move.effect;
                if effect.is_damaging() {
                    strike(battle, &attacker, effect, jitters);
                    battle.state.finish_attack();
                    Some(attacker.element)
                } else {
                    let amount = effect.amount_with_jitter(&attacker, &attacker, 0);
                    let queued = match effect {
                        MoveType::Heal(_) => CombatEffect::Heal(amount),
                        _ => CombatEffect::Defense(amount),
                    };
                    let ghost before = battle.line_up();
                    battle.combatants[player].effects.enqueue(queued);
                    battle.state.finish_attack();
                    proof {
                        assert(battle.line_up() =~= before.update(
                            player as int,
                            before[player as int].enqueued(queued),
                        ));
                    }
                    None
                }
            },
            _ => None,
        }
    }
}

/// Queues the attacker's damaging move on the enemies it reaches.
fn strike(battle: &mut Battle, attacker: &Spirit, effect: MoveType, jitters: &[i32; 3])
    requires
        effect.damaging(),
        attacker.element.well_formed(),
        forall|k: int| 0 <= k < 3 ==> -JITTER_LIMIT <= #[trigger] jitters@[k] <= JITTER_LIMIT,
    ensures
        final(battle).state == old(battle).state,
        final(battle).combatants@.len() == old(battle).combatants@.len(),
        forall|i: int|
            0 <= i < old(battle).combatants@.len() ==> (#[trigger] final(battle).combatants@[i]).spirit
                == old(battle).combatants@[i].spirit,
        final(battle).line_up() == struck(
            old(battle).line_up(),
            *attacker,
            effect,
            Seq::new(3, |k: int| jitters@[k] as int),
        ),
{
    let ghost before = battle.line_up();
    let ghost rolls = Seq::new(3, |k: int| jitters@[k] as int);
    let ghost goal = struck(before, *attacker, effect, rolls);
    let reach: usize = match effect {
        MoveType::DamageMany(_) => WIDE_REACH,
        _ => 1,
    };
    let mut rank: usize = 0;
    let mut i: usize = 0;
    while i < battle.combatants.len()
        invariant
            i <= battle.combatants@.len(),
            battle.combatants@.len() == before.len(),
            before == old(battle).line_up(),
            battle.state == old(battle).state,
            rank == living_before(before, i as int),
            rank <= i,
            effect.damaging(),
            reach == if effect is DamageMany {
                WIDE_REACH
            } else {
                1usize
            },
            attacker.element.well_formed(),
            forall|k: int| 0 <= k < 3 ==> -JITTER_LIMIT <= #[trigger] jitters@[k] <= JITTER_LIMIT,
            rolls == Seq::new(3, |k: int| jitters@[k] as int),
            goal == struck(before, *attacker, effect, rolls),
            forall|j: int| 0 <= j < i ==> (#[trigger] battle.combatants@[j])@ == goal[j],
            forall|j: int| i <= j < before.len() ==> (#[trigger] battle.combatants@[j])@ == before[j],
            forall|j: int|
                0 <= j < before.len() ==> (#[trigger] battle.combatants@[j]).spirit
                    == old(battle).combatants@[j].spirit,
        decreases battle.combatants@.len() - i,
    {
        proof {
            assert(before.take(i + 1).drop_last() =~= before.take(i as int));
        }
        if battle.combatants[i].player.is_none() && battle.combatants[i].spirit.health > 0 {
            if rank < reach {
                let amount = effect.amount_with_jitter(
                    attacker,
                    &battle.combatants[i].spirit,
                    jitters[rank],
                );
                battle.combatants[i].effects.enqueue(CombatEffect::Damage(amount));
                match effect {
                    MoveType::DamageOne(_) => {
                        battle.combatants[i].effects.enqueue(CombatEffect::ShedDefense(1));
                    },
                    _ => {},
                }
            }
            rank = rank + 1;
        }
        i = i + 1;
    }
    proof {
        assert(battle.line_up() =~= goal);
    }
}

} // verus!
