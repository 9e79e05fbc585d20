//! How a battle ends: defeat when no spirit of the player's is left, a forced
//! retreat when the fighting one has fallen, and victory with its spoils
//! when no enemy is left.

use vstd::prelude::*;
use crate::battle::{
    active_ally, any_queue_active, living_enemies, Battle, BattleState, CombatantView, PlayerSpirit,
};
use crate::element::SpiritType;
use crate::enemy_turn::count_living_enemies;
use crate::play::PlayState;
use crate::roster::{Player, ROSTER_CAPACITY};
use crate::spirit::{muster, Spirit};

verus! {

/// Whether any spirit of the player's has health left.
pub open spec fn any_ally_alive(combatants: Seq<CombatantView>) -> bool {
    exists|i: int|
        0 <= i < combatants.len() && (#[trigger] combatants[i]).is_ally() && combatants[i].alive()
}

/// The combatant with its mark as the fighting spirit taken off, if it is a
/// fallen spirit of the player's.
pub open spec fn unmarked_if_fallen(combatant: CombatantView) -> CombatantView {
    if combatant.is_ally() && !combatant.alive() {
        CombatantView { player: Some(PlayerSpirit { active: false }), ..combatant }
    } else {
        combatant
    }
}

/// The line-up with no fallen spirit marked as fighting.
pub open spec fn fallen_unmarked(combatants: Seq<CombatantView>) -> Seq<CombatantView> {
    Seq::new(combatants.len(), |i: int| unmarked_if_fallen(combatants[i]))
}

/// The elements of all enemies of the line-up, fallen or not, in order.
pub open spec fn enemy_elements(combatants: Seq<CombatantView>) -> Seq<SpiritType>
    decreases combatants.len(),
{
    if combatants.len() == 0 {
        Seq::empty()
    } else if combatants.last().is_enemy() {
        enemy_elements(combatants.drop_last()).push(combatants.last().spirit.element)
    } else {
        enemy_elements(combatants.drop_last())
    }
}

/// The player's spirits that have health left, as they stand, in order.
pub open spec fn survivors(combatants: Seq<CombatantView>) -> Seq<Spirit>
    decreases combatants.len(),
{
    if combatants.len() == 0 {
        Seq::empty()
    } else if combatants.last().is_ally() && combatants.last().alive() {
        survivors(combatants.drop_last()).push(combatants.last().spirit)
    } else {
        survivors(combatants.drop_last())
    }
}

/// How many of `offered` spirits a roster of `roster_len` has room for.
pub open spec fn room_for(roster_len: nat, offered: nat) -> nat {
    if roster_len >= ROSTER_CAPACITY {
        0
    } else if offered <= ROSTER_CAPACITY - roster_len {
        offered
    } else {
        (ROSTER_CAPACITY - roster_len) as nat
    }
}

/// The enemies that join a roster of `roster_len` after a victory: as many
/// as there is room for, from the front of the line-up.
pub open spec fn captured_elements(combatants: Seq<CombatantView>, roster_len: nat) -> Seq<
    SpiritType,
> {
    let all = enemy_elements(combatants);
    all.take(room_for(roster_len, all.len()) as int)
}

/// The enemies that find no room in the roster.
pub open spec fn lost_elements(combatants: Seq<CombatantView>, roster_len: nat) -> Seq<SpiritType> {
    let all = enemy_elements(combatants);
    all.skip(room_for(roster_len, all.len()) as int)
}

/// Collects the elements of all enemies.
pub fn collect_enemy_elements(battle: &Battle) -> (elements: Vec<SpiritType>)
    ensures
        elements@ == enemy_elements(battle.line_up()),
{
    let mut elements: Vec<SpiritType> = Vec::new();
    let mut i: usize = 0;
    while i < battle.combatants.len()
        invariant
            i <= battle.combatants@.len(),
            elements@ == enemy_elements(battle.line_up().take(i as int)),
        decreases battle.combatants@.len() - i,
    {
        proof {
            assert(battle.line_up().take(i + 1).drop_last() =~= battle.line_up().take(i as int));
        }
        if battle.combatants[i].player.is_none() {
            elements.push(battle.combatants[i].spirit.element);
        }
        i = i + 1;
    }
    proof {
        assert(battle.line_up().take(i as int) =~= battle.line_up());
    }
    elements
}

/// Copies the player's spirits that have health left.
pub fn collect_survivors(battle: &Battle) -> (alive: Vec<Spirit>)
    ensures
        alive@ == survivors(battle.line_up()),
{
    let mut alive: Vec<Spirit> = Vec::new();
    let mut i: usize = 0;
    while i < battle.combatants.len()
        invariant
            i <= battle.combatants@.len(),
            alive@ == survivors(battle.line_up().take(i as int)),
        decreases battle.combatants@.len() - i,
    {
        proof {
            assert(battle.line_up().take(i + 1).drop_last() =~= battle.line_up().take(i as int));
        }
        if battle.combatants[i].player.is_some() && battle.combatants[i].spirit.health > 0 {
            alive.push(battle.combatants[i].spirit.duplicate());
        }
        i = i + 1;
    }
    proof {
        assert(battle.line_up().take(i as int) =~= battle.line_up());
    }
    alive
}

/// Divides the enemies of a won battle into those that join a roster of
/// `roster_len` spirits and those that find no room.
pub fn spoils(battle: &Battle, roster_len: usize) -> (shares: (Vec<SpiritType>, Vec<SpiritType>))
    ensures
        shares.0@ == captured_elements(battle.line_up(), roster_len as nat),
        shares.1@ == lost_elements(battle.line_up(), roster_len as nat),
        shares.0@.len() + shares.1@.len() == enemy_elements(battle.line_up()).len(),
        roster_len <= ROSTER_CAPACITY ==> roster_len + shares.0@.len() <= ROSTER_CAPACITY,
{
    let all = collect_enemy_elements(battle);
    let mut captured: Vec<SpiritType> = Vec::new();
    let mut lost: Vec<SpiritType> = Vec::new();
    let mut i: usize = 0;
    while i < all.len()
        invariant
            i <= all@.len(),
            captured@.len() == room_for(roster_len as nat, i as nat),
            captured@ == all@.take(captured@.len() as int),
            lost@ == all@.subrange(captured@.len() as int, i as int),
        decreases all@.len() - i,
    {
        if roster_len < ROSTER_CAPACITY && captured.len() < ROSTER_CAPACITY - roster_len {
            assert(lost@.len() == 0);
            captured.push(all[i]);
            assert(captured@ =~= all@.take(captured@.len() as int));
            assert(lost@ =~= all@.subrange(captured@.len() as int, i + 1));
        } else {
            lost.push(all[i]);
            assert(lost@ =~= all@.subrange(captured@.len() as int, i + 1));
        }
        i = i + 1;
    }
    proof {
        assert(lost@ =~= all@.skip(captured@.len() as int));
    }
    (captured, lost)
}

/// What the end-of-step check asks of the surroundings.
#[derive(Clone, Copy, Debug)]
pub struct OutcomeReport {
    /// The fighting spirit has fallen and the player must send in another.
    pub retreated: bool,
    /// The battle is won and its encounter is over.
    pub won: bool,
}

/// Watches the combatants' health and ends the battle when a side is out.
pub struct WatchSpirits;

impl WatchSpirits {
    /// The player is beaten: no spirit of theirs has health left.
    pub open spec fn defeat(battle: Battle) -> bool {
        !any_ally_alive(battle.line_up())
    }

    /// The fighting spirit is gone while others could still fight, and the
    /// player is not choosing a new one yet.
    pub open spec fn must_retreat(battle: Battle) -> bool {
        &&& any_ally_alive(battle.line_up())
        &&& active_ally(battle.line_up()) is None
        &&& !battle.state.retreating
    }

    /// The battle is won: no enemy has health left.
    pub open spec fn victory(battle: Battle) -> bool {
        living_enemies(battle.line_up()) == 0
    }

    /// The phase after the check.
    pub open spec fn state_after(battle: Battle) -> BattleState {
        BattleState {
            in_combat: battle.state.in_combat && !Self::defeat(battle) && !Self::victory(battle),
            retreating: battle.state.retreating || Self::must_retreat(battle),
            active_entity: if Self::must_retreat(battle) {
                None
            } else {
                battle.state.active_entity
            },
            ..battle.state
        }
    }

    /// Relates the battle, the phase of play and the player before the check
    /// to what they are after it, with `recruits` as the spirits that join
    /// the roster on victory.
    pub open spec fn settled(
        before: (Battle, PlayState, Player),
        after: (Battle, PlayState, Player),
        recruits: Seq<Spirit>,
        report: OutcomeReport,
    ) -> bool {
        let (battle, play_state, player) = before;
        if !(play_state is InBattle) {
            &&& after == before
            &&& !report.retreated
            &&& !report.won
        } else {
            &&& report.retreated == Self::must_retreat(battle)
            &&& report.won == Self::victory(battle)
            &&& after.0.state == Self::state_after(battle)
            &&& after.0.line_up() == if report.won {
                Seq::<CombatantView>::empty()
            } else {
                fallen_unmarked(battle.line_up())
            }
            &&& report.won ==> {
                &&& after.2.spirits@ == survivors(battle.line_up()) + recruits
                &&& after.1 matches PlayState::Looting { captured, lost }
                &&& captured@ == captured_elements(battle.line_up(), player.spirits@.len())
                &&& lost@ == lost_elements(battle.line_up(), player.spirits@.len())
            }
            &&& !report.won ==> {
                &&& after.2 == player
                &&& if Self::defeat(battle) {
                    after.1 is GameOver
                } else {
                    after.1 is InBattle
                }
            }
        }
    }

    /// Whether the spirits are new roster spirits for the enemies that a
    /// roster of `roster_len` captures from the line-up, one for each.
    pub open spec fn recruits_for(
        recruits: Seq<Spirit>,
        combatants: Seq<CombatantView>,
        roster_len: nat,
    ) -> bool {
        let captured = captured_elements(combatants, roster_len);
        &&& recruits.len() == captured.len()
        &&& forall|k: int|
            0 <= k < captured.len() ==> (#[trigger] recruits[k]).newly_made(captured[k], true)
    }

    /// Checks who is left standing and ends the battle when a side is out.
    /// On victory a new spirit is made, with random stats and moves, for
    /// each enemy the roster has room for.
    pub fn run(&mut self, battle: &mut Battle, play_state: &mut PlayState, player: &mut Player) -> (report:
        OutcomeReport)
        requires
            old(battle).well_formed(),
        ensures
            final(battle).well_formed(),
            exists|recruits: Seq<Spirit>|
                {
                    &&& #[trigger] Self::settled(
                        (*old(battle), *old(play_state), *old(player)),
                        (*final(battle), *final(play_state), *final(player)),
                        recruits,
                        report,
                    )
                    &&& report.won ==> Self::recruits_for(
                        recruits,
                        old(battle).line_up(),
                        old(player).spirits@.len(),
                    )
                },
            survivors(old(battle).line_up()).len() <= old(player).spirits@.len() <= ROSTER_CAPACITY
                ==> final(player).spirits@.len() <= ROSTER_CAPACITY,
            old(player).well_formed() ==> final(player).well_formed(),
    {
        let won = match play_state {
            PlayState::InBattle => count_living_enemies(battle) == 0,
            _ => false,
        };
        let recruits = if won {
            let (captured, _) = spoils(battle, player.spirits.len());
            proof {
                lemma_enemies_are_well_formed(battle.line_up());
            }
            muster(&captured, true)
        } else {
            Vec::new()
        };
        let ghost joining = recruits@;
        proof {
            lemma_survivors_are_well_formed(battle.line_up());
        }
        let report = Self::resolve(battle, play_state, player, recruits);
        proof {
            assert(Self::settled(
                (*old(battle), *old(play_state), *old(player)),
                (*battle, *play_state, *player),
                joining,
                report,
            ));
        }
        report
    }

    /// Checks who is left standing, with `recruits` as the spirits to add to
    /// the roster should the battle be won. Outside a battle nothing happens.
    /// Fallen spirits lose their mark as the fighting one. Defeat ends the
    /// game; a fallen fighter forces a retreat; victory turns the roster
    /// into the survivors followed by the recruits, divides the enemies into
    /// captured and lost, and clears the line-up.
    pub fn resolve(
        battle: &mut Battle,
        play_state: &mut PlayState,
        player: &mut Player,
        recruits: Vec<Spirit>,
    ) -> (report: OutcomeReport)
        requires
            old(battle).well_formed(),
        ensures
            final(battle).well_formed(),
            Self::settled(
                (*old(battle), *old(play_state), *old(player)),
                (*final(battle), *final(play_state), *final(player)),
                recruits@,
                report,
            ),
    {
        match play_state {
            PlayState::InBattle => {},
            _ => {
                return OutcomeReport { retreated: false, won: false };
            },
        }
        let ghost before = battle.line_up();
        let fighter = battle.get_active_ally();
        let enemies_alive = count_living_enemies(battle) > 0;
        let mut players_alive = false;
        let mut i: usize = 0;
        while i < battle.combatants.len()
            invariant
                i <= battle.combatants@.len(),
                battle.combatants@.len() == before.len(),
                battle.state == old(battle).state,
                players_alive == (survivors(before.take(i as int)).len() > 0),
                forall|j: int|
                    0 <= j < i ==> (#[trigger] battle.combatants@[j])@ == unmarked_if_fallen(
                        before[j],
                    ),
                forall|j: int| i <= j < before.len() ==> (#[trigger] battle.combatants@[j])@ == before[j],
                forall|j: int|
                    0 <= j < before.len() ==> (#[trigger] battle.combatants@[j]).spirit.well_formed(),
            decreases battle.combatants@.len() - i,
        {
            proof {
                assert(before.take(i + 1).drop_last() =~= before.take(i as int));
            }
            if battle.combatants[i].player.is_some() {
                if battle.combatants[i].spirit.health > 0 {
                    players_alive = true;
                } else {
                    battle.combatants[i].player = Some(PlayerSpirit { active: false });
                }
            }
            i = i + 1;
        }
        proof {
            assert(before.take(i as int) =~= before);
            assert(battle.line_up() =~= fallen_unmarked(before));
            lemma_survivors_are_the_living(before);
            assert(any_queue_active(battle.line_up()) ==> any_queue_active(before)) by {
                if any_queue_active(battle.line_up()) {
                    let j = choose|j: int|
                        0 <= j < battle.line_up().len() && (#[trigger] battle.line_up()[j]).effects.len()
                            > 0;
                    assert(before[j].effects.len() > 0);
                }
            }
        }
        if !players_alive {
            *play_state = PlayState::GameOver;
            battle.state.in_combat = false;
        }
        let retreated = players_alive && fighter.is_none() && !battle.state.retreating;
        if retreated {
            battle.state.retreat();
        }
        if !enemies_alive {
            let (captured, lost) = spoils(battle, player.spirits.len());
            proof {
                lemma_unmarking_keeps_the_rest(before);
            }
            let mut roster = collect_survivors(battle);
            let mut joining = recruits;
            roster.append(&mut joining);
            player.spirits = roster;
            *play_state = PlayState::Looting { captured, lost };
            battle.state.in_combat = false;
            battle.combatants = Vec::new();
            proof {
                assert(battle.line_up() =~= Seq::<CombatantView>::empty());
            }
        }
        OutcomeReport { retreated, won: !enemies_alive }
    }
}

/// Where every spirit of a line-up is well formed, so is every survivor.
pub proof fn lemma_survivors_are_well_formed(combatants: Seq<CombatantView>)
    requires
        forall|i: int| 0 <= i < combatants.len() ==> (#[trigger] combatants[i]).spirit.well_formed(),
    ensures
        forall|k: int|
            0 <= k < survivors(combatants).len() ==> (#[trigger] survivors(combatants)[k]).well_formed(),
    decreases combatants.len(),
{
    if combatants.len() > 0 {
        let rest = combatants.drop_last();
        assert forall|i: int| 0 <= i < rest.len() implies (#[trigger] rest[i]).spirit.well_formed() by {
            assert(combatants[i].spirit.well_formed());
        }
        lemma_survivors_are_well_formed(rest);
        assert(combatants[combatants.len() - 1].spirit.well_formed());
        let all = survivors(combatants);
        assert forall|k: int| 0 <= k < all.len() implies (#[trigger] all[k]).well_formed() by {
            if k < survivors(rest).len() {
                assert(all[k] == survivors(rest)[k]);
            }
        }
    }
}

/// Where every spirit of a line-up is well formed, so is the element of
/// every enemy.
pub proof fn lemma_enemies_are_well_formed(combatants: Seq<CombatantView>)
    requires
        forall|i: int| 0 <= i < combatants.len() ==> (#[trigger] combatants[i]).spirit.well_formed(),
    ensures
        forall|k: int|
            0 <= k < enemy_elements(combatants).len() ==> (#[trigger] enemy_elements(
                combatants,
            )[k]).well_formed(),
    decreases combatants.len(),
{
    if combatants.len() > 0 {
        let rest = combatants.drop_last();
        assert forall|i: int| 0 <= i < rest.len() implies (#[trigger] rest[i]).spirit.well_formed() by {
            assert(combatants[i].spirit.well_formed());
        }
        lemma_enemies_are_well_formed(rest);
        assert(combatants[combatants.len() - 1].spirit.well_formed());
        let all = enemy_elements(combatants);
        assert forall|k: int| 0 <= k < all.len() implies (#[trigger] all[k]).well_formed() by {
            if k < enemy_elements(rest).len() {
                assert(all[k] == enemy_elements(rest)[k]);
            }
        }
    }
}

/// Some spirit of the player's is alive exactly when the survivors are not
/// empty.
pub proof fn lemma_survivors_are_the_living(combatants: Seq<CombatantView>)
    ensures
        any_ally_alive(combatants) == (survivors(combatants).len() > 0),
    decreases combatants.len(),
{
    if combatants.len() > 0 {
        let rest = combatants.drop_last();
        lemma_survivors_are_the_living(rest);
        if any_ally_alive(rest) {
            let j = choose|j: int| 0 <= j < rest.len() && (#[trigger] rest[j]).is_ally() && rest[j].alive();
            assert(combatants[j].is_ally() && combatants[j].alive());
        }
        if any_ally_alive(combatants) && !(combatants.last().is_ally() && combatants.last().alive()) {
            let j = choose|j: int|
                0 <= j < combatants.len() && (#[trigger] combatants[j]).is_ally()
                    && combatants[j].alive();
            assert(rest[j].is_ally() && rest[j].alive());
        }
    }
}

/// Taking the mark off fallen spirits changes neither who the enemies are
/// nor who survives.
pub proof fn lemma_unmarking_keeps_the_rest(combatants: Seq<CombatantView>)
    ensures
        enemy_elements(fallen_unmarked(combatants)) == enemy_elements(combatants),
        survivors(fallen_unmarked(combatants)) == survivors(combatants),
    decreases combatants.len(),
{
    if combatants.len() > 0 {
        lemma_unmarking_keeps_the_rest(combatants.drop_last());
        assert(fallen_unmarked(combatants).drop_last() =~= fallen_unmarked(combatants.drop_last()));
    }
}

} // verus!
