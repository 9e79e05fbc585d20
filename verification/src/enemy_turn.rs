//! The enemies' answer: one living enemy acts per call, choosing a move at
//! random, until the round's countdown has run out.

use vstd::prelude::*;
use crate::battle::{any_queue_active, living_enemies, Battle, BattleState, CombatantView};
use crate::chance::pick_one;
use crate::effects::CombatEffect;
use crate::element::SpiritType;
use crate::moves::{Move, MoveType};
use crate::player_turn::{self_effect, WatchAttack};
use crate::spirit::{draw_jitter, Spirit, JITTER_LIMIT};
use crate::text::{damage_line, damage_one_text, defense_line, defense_text, heal_line, heal_text};

verus! {

/// The player's spirit that the enemies attack: the last one in the line-up
/// that is marked active.
pub open spec fn marked_ally(combatants: Seq<CombatantView>) -> Option<int>
    decreases combatants.len(),
{
    if combatants.len() == 0 {
        None
    } else if combatants.last().is_active() {
        Some(combatants.len() - 1)
    } else {
        marked_ally(combatants.drop_last())
    }
}

/// The position of the living enemy with `rank` living enemies before it.
pub open spec fn nth_living_enemy(combatants: Seq<CombatantView>, rank: nat) -> Option<int>
    decreases combatants.len(),
{
    if combatants.len() == 0 {
        None
    } else if combatants.last().is_enemy() && combatants.last().alive() && living_enemies(
        combatants.drop_last(),
    ) == rank {
        Some(combatants.len() - 1)
    } else {
        nth_living_enemy(combatants.drop_last(), rank)
    }
}

/// The line-up after the enemy at `actor` has used a move with the given
/// effect: damage is queued on `target`, with one point of defense shed by a
/// strike at one target; healing and defense are queued on the enemy itself.
pub open spec fn after_enemy_move(
    combatants: Seq<CombatantView>,
    actor: int,
    target: int,
    effect: MoveType,
    jitter: int,
) -> Seq<CombatantView> {
    let amount = effect.spec_amount(combatants[actor].spirit, combatants[target].spirit, jitter) as u32;
    match effect {
        MoveType::DamageOne(_) => combatants.update(
            target,
            combatants[target].enqueued(CombatEffect::Damage(amount)).enqueued(
                CombatEffect::ShedDefense(1),
            ),
        ),
        MoveType::DamageMany(_) => combatants.update(
            target,
            combatants[target].enqueued(CombatEffect::Damage(amount)),
        ),
        _ => combatants.update(
            actor,
            combatants[actor].enqueued(self_effect(effect, combatants[actor].spirit)),
        ),
    }
}

/// The combat-log line for the enemy's move.
pub open spec fn enemy_line(
    user: Spirit,
    target: Spirit,
    name: Seq<char>,
    effect: MoveType,
    jitter: int,
) -> Seq<char> {
    match effect {
        MoveType::Heal(_) => heal_line(user.element, name, effect.spec_amount(user, user, 0) as nat),
        MoveType::Defend(_) => defense_line(
            user.element,
            name,
            effect.spec_amount(user, user, 0) as nat,
        ),
        _ => damage_line(
            user.element,
            name,
            target.element,
            effect.spec_amount(user, target, jitter) as nat,
            true,
        ),
    }
}

/// What an enemy turn asks of the surroundings.
#[derive(Clone, Copy, Debug)]
pub struct EnemyReport {
    /// An enemy acted; pending input is to be dropped.
    pub acted: bool,
    /// The element whose attack sound is to be played, if any.
    pub sound: Option<SpiritType>,
}

/// Lets the enemies answer the player's attack.
pub struct EnemyCombat;

impl EnemyCombat {
    /// Whether an enemy acts now: nothing holds the battle back, the player
    /// is not retreating, enemy turns are pending, a spirit of the player's
    /// is marked as fighting, and an enemy is alive.
    pub open spec fn due(battle: Battle) -> bool {
        &&& !battle.state.spec_animating()
        &&& !battle.state.retreating
        &&& battle.state.enemy_attacking is Some
        &&& marked_ally(battle.line_up()) is Some
        &&& living_enemies(battle.line_up()) > 0
    }

    /// Which of the living enemies acts: the one the countdown names, or the
    /// last of them where the countdown is ahead.
    pub open spec fn acting_rank(battle: Battle) -> nat {
        let pending = battle.state.enemy_attacking.unwrap() as nat;
        let living = living_enemies(battle.line_up());
        if pending >= living {
            (living - 1) as nat
        } else {
            pending
        }
    }

    /// The position of the enemy that acts.
    pub open spec fn actor(battle: Battle) -> int {
        nth_living_enemy(battle.line_up(), Self::acting_rank(battle)).unwrap()
    }

    /// Finds the enemy that acts now and the spirit it faces, if an enemy
    /// turn is due.
    pub fn next_actor(battle: &Battle) -> (turn: Option<(usize, usize)>)
        ensures
            turn is Some == Self::due(*battle),
            turn matches Some((actor, target)) ==> {
                &&& actor == Self::actor(*battle)
                &&& marked_ally(battle.line_up()) == Some(target as int)
                &&& actor < battle.combatants@.len()
                &&& target < battle.combatants@.len()
            },
    {
        if battle.state.animating() || battle.state.retreating {
            return None;
        }
        let pending: u32 = match battle.state.enemy_attacking {
            Some(pending) => pending,
            None => {
                return None;
            },
        };
        let target = match find_marked_ally(battle) {
            Some(target) => target,
            None => {
                return None;
            },
        };
        let living = count_living_enemies(battle);
        if living == 0 {
            return None;
        }
        let rank: usize = if pending as usize >= living {
            living - 1
        } else {
            pending as usize
        };
        proof {
            lemma_nth_living_enemy(battle.line_up(), rank as nat);
        }
        let actor = find_living_enemy(battle, rank);
        Some((actor.unwrap(), target))
    }

    /// Lets the enemy whose turn it is use `action` with the given jitter, if
    /// an enemy turn is due.
    pub fn resolve(battle: &mut Battle, action: &Move, jitter: i32) -> (report: EnemyReport)
        requires
            old(battle).well_formed(),
            -JITTER_LIMIT <= jitter <= JITTER_LIMIT,
        ensures
            final(battle).well_formed(),
            report.acted == Self::due(*old(battle)),
            !report.acted ==> *final(battle) == *old(battle) && report.sound is None,
            report.acted ==> {
                &&& Self::acted(*old(battle), *final(battle), *action, jitter as int)
                &&& report.sound == if action.effect.damaging() {
                    Some(old(battle).line_up()[Self::actor(*old(battle))].spirit.element)
                } else {
                    None
                }
            },
    {
        let (actor, target) = match Self::next_actor(battle) {
            Some(turn) => turn,
            None => {
                return EnemyReport { acted: false, sound: None };
            },
        };
        let ghost before = battle.line_up();
        let pending: u32 = match battle.state.enemy_attacking {
            Some(pending) => pending,
            None => 0,
        };
        let living = count_living_enemies(battle);
        let rank: u32 = if pending as usize >= living {
            (living - 1) as u32
        } else {
            pending
        };
        let user = battle.combatants[actor].spirit.duplicate();
        let faced = battle.combatants[target].spirit.duplicate();
        let sound = match action.effect {
            MoveType::DamageOne(_) => {
                let amount = action.effect.amount_with_jitter(&user, &faced, jitter);
                battle.combatants[target].effects.enqueue(CombatEffect::Damage(amount));
                battle.combatants[target].effects.enqueue(CombatEffect::ShedDefense(1));
                battle.state.notify(damage_one_text(action, &user, &faced, amount, true));
                Some(user.element)
            },
            MoveType::DamageMany(_) => {
                let amount = action.effect.amount_with_jitter(&user, &faced, jitter);
                battle.combatants[target].effects.enqueue(CombatEffect::Damage(amount));
                battle.state.notify(damage_one_text(action, &user, &faced, amount, true));
                Some(user.element)
            },
            MoveType::Heal(_) => {
                let amount = action.effect.amount_with_jitter(&user, &user, 0);
                battle.combatants[actor].effects.enqueue(CombatEffect::Heal(amount));
                battle.state.notify(heal_text(action, &user, amount));
                None
            },
            MoveType::Defend(_) => {
                let amount = action.effect.amount_with_jitter(&user, &user, 0);
                battle.combatants[actor].effects.enqueue(CombatEffect::Defense(amount));
                battle.state.notify(defense_text(action, &user, amount));
                None
            },
        };
        battle.state.enemy_attacking = if rank > 0 {
            Some(rank - 1)
        } else {
            None
        };
        battle.state.animating = true;
        proof {
            assert(battle.line_up() =~= after_enemy_move(
                before,
                actor as int,
                target as int,
                action.effect,
                jitter as int,
            ));
        }
        EnemyReport { acted: true, sound }
    }

    /// Lets the enemy whose turn it is act, if an enemy turn is due: it picks
    /// one of its moves at random and uses it with a random jitter.
    pub fn run(&mut self, battle: &mut Battle) -> (report: EnemyReport)
        requires
            old(battle).well_formed(),
        ensures
            final(battle).well_formed(),
            report.acted == Self::due(*old(battle)),
            !report.acted ==> *final(battle) == *old(battle) && report.sound is None,
            report.acted ==> exists|action: Move, jitter: int|
                {
                    &&& old(battle).combatants@[Self::actor(*old(battle))].spirit.moves@.contains(
                        action,
                    )
                    &&& -JITTER_LIMIT <= jitter <= JITTER_LIMIT
                    &&& #[trigger] Self::acted(*old(battle), *final(battle), action, jitter)
                    &&& report.sound == if action.effect.damaging() {
                        Some(old(battle).line_up()[Self::actor(*old(battle))].spirit.element)
                    } else {
                        None
                    }
                },
    {
        match Self::next_actor(battle) {
            None => EnemyReport { acted: false, sound: None },
            Some((actor, _)) => {
                let known: Vec<usize> = vec![0, 1, 2, 3];
                let pick = match pick_one(&known) {
                    Some(pick) => pick,
                    None => 0,
                };
                assert(known@.contains(pick));
                let action = battle.combatants[actor].spirit.moves[pick].clone();
                let jitter = if action.effect.is_damaging() {
                    draw_jitter()
                } else {
                    0
                };
                let report = Self::resolve(battle, &action, jitter);
                proof {
                    assert(Self::acted(*old(battle), *battle, action, jitter as int));
                }
                report
            },
        }
    }

    /// The battle `after` is what `before` becomes when the acting enemy uses
    /// `action` with the given jitter: the effects are queued, the line is on
    /// display, input is held back, and the countdown moves on or ends.
    pub open spec fn acted(before: Battle, after: Battle, action: Move, jitter: int) -> bool {
        let actor = Self::actor(before);
        let target = marked_ally(before.line_up()).unwrap();
        let rank = Self::acting_rank(before);
        &&& after.line_up() == after_enemy_move(
            before.line_up(),
            actor,
            target,
            action.effect,
            jitter,
        )
        &&& after.state.notification matches Some(line) && line@ == enemy_line(
            before.line_up()[actor].spirit,
            before.line_up()[target].spirit,
            action.name@,
            action.effect,
            jitter,
        )
        &&& after.state.enemy_attacking == if rank > 0 {
            Some((rank - 1) as u32)
        } else {
            None
        }
        &&& after.state.animating
        &&& after.state.in_combat == before.state.in_combat
        &&& after.state.retreating == before.state.retreating
        &&& after.state.activate == before.state.activate
        &&& after.state.combat_move == before.state.combat_move
        &&& after.state.active_entity == before.state.active_entity
        &&& after.state.encounter_entity == before.state.encounter_entity
    }
}

/// Finds the player's spirit that is marked as fighting.
fn find_marked_ally(battle: &Battle) -> (found: Option<usize>)
    ensures
        found is Some == marked_ally(battle.line_up()) is Some,
        found matches Some(i) ==> marked_ally(battle.line_up()) == Some(i as int) && i
            < battle.combatants@.len(),
{
    let mut found: Option<usize> = None;
    let mut i: usize = 0;
    while i < battle.combatants.len()
        invariant
            i <= battle.combatants@.len(),
            found is Some == marked_ally(battle.line_up().take(i as int)) is Some,
            found matches Some(k) ==> marked_ally(battle.line_up().take(i as int)) == Some(k as int)
                && k < i,
        decreases battle.combatants@.len() - i,
    {
        proof {
            assert(battle.line_up().take(i + 1).drop_last() =~= battle.line_up().take(i as int));
        }
        match battle.combatants[i].player {
            Some(mark) => {
                if mark.active {
                    found = Some(i);
                }
            },
            None => {},
        }
        i = i + 1;
    }
    proof {
        assert(battle.line_up().take(i as int) =~= battle.line_up());
    }
    found
}

/// Counts the enemies with health left.
pub fn count_living_enemies(battle: &Battle) -> (count: usize)
    ensures
        count == living_enemies(battle.line_up()),
{
    let mut count: usize = 0;
    let mut i: usize = 0;
    while i < battle.combatants.len()
        invariant
            i <= battle.combatants@.len(),
            count <= i,
            count == living_enemies(battle.line_up().take(i as int)),
        decreases battle.combatants@.len() - i,
    {
        proof {
            assert(battle.line_up().take(i + 1).drop_last() =~= battle.line_up().take(i as int));
        }
        if battle.combatants[i].player.is_none() && battle.combatants[i].spirit.health > 0 {
            count = count + 1;
        }
        i = i + 1;
    }
    proof {
        assert(battle.line_up().take(i as int) =~= battle.line_up());
    }
    count
}

/// Finds the living enemy with `rank` living enemies before it.
fn find_living_enemy(battle: &Battle, rank: usize) -> (found: Option<usize>)
    ensures
        found is Some == nth_living_enemy(battle.line_up(), rank as nat) is Some,
        found matches Some(i) ==> nth_living_enemy(battle.line_up(), rank as nat) == Some(i as int)
            && i < battle.combatants@.len(),
{
    let mut found: Option<usize> = None;
    let mut seen: usize = 0;
    let mut i: usize = 0;
    while i < battle.combatants.len()
        invariant
            i <= battle.combatants@.len(),
            seen <= i,
            seen == living_enemies(battle.line_up().take(i as int)),
            found is Some == nth_living_enemy(battle.line_up().take(i as int), rank as nat) is Some,
            found matches Some(k) ==> nth_living_enemy(
                battle.line_up().take(i as int),
                rank as nat,
            ) == Some(k as int) && k < i,
        decreases battle.combatants@.len() - i,
    {
        proof {
            assert(battle.line_up().take(i + 1).drop_last() =~= battle.line_up().take(i as int));
        }
        if battle.combatants[i].player.is_none() && battle.combatants[i].spirit.health > 0 {
            if seen == rank {
                found = Some(i);
            }
            seen = seen + 1;
        }
        i = i + 1;
    }
    proof {
        assert(battle.line_up().take(i as int) =~= battle.line_up());
    }
    found
}

/// While any combatant of a well-formed battle has effects queued, no turn
/// is taken: the player cannot commit a move, no committed move is waiting
/// to be resolved, and no enemy acts.
pub proof fn lemma_turns_wait_for_effects(battle: Battle)
    requires
        battle.well_formed(),
        any_queue_active(battle.line_up()),
    ensures
        !battle.state.may_commit(),
        !WatchAttack::due(battle),
        !EnemyCombat::due(battle),
{
}

/// Every rank below the number of living enemies names one of them.
pub proof fn lemma_nth_living_enemy(combatants: Seq<CombatantView>, rank: nat)
    requires
        rank < living_enemies(combatants),
    ensures
        nth_living_enemy(combatants, rank) matches Some(i) && 0 <= i < combatants.len()
            && combatants[i].is_enemy() && combatants[i].alive(),
    decreases combatants.len(),
{
    if combatants.len() > 0 {
        let last = combatants.last();
        if !(last.is_enemy() && last.alive() && living_enemies(combatants.drop_last()) == rank) {
            lemma_nth_living_enemy(combatants.drop_last(), rank);
        }
    }
}

} // verus!
