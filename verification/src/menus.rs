//! What the player's input does in each phase of play: moving cursors,
//! committing moves, retreating, fusing spirits and leaving screens.

use vstd::prelude::*;
use crate::battle::{any_queue_active, Battle, BattleState, CombatantView, PlayerSpirit};
use crate::play::{Direction, InputState, PlayState, SoundCue};
use crate::roster::{can_fuse, combine_spirits, fused_roster, Player};

verus! {

/// Rows and columns of the roster screen.
pub const GRID_SIDE: usize = 5;

/// Where the cursor of the roster screen stands.
#[derive(Clone, Copy, Debug)]
pub struct InventoryState {
    pub index: usize,
}

impl InventoryState {
    /// A cursor on the first cell.
    pub fn new() -> (state: InventoryState)
        ensures
            state.index == 0,
    {
        InventoryState { index: 0 }
    }

    /// Where a step takes the cursor on the grid, row by row, or nowhere
    /// where the step would leave the grid's first or last cell behind.
    pub open spec fn stepped(index: usize, direction: Direction) -> Option<usize> {
        match direction {
            Direction::Up => if index < GRID_SIDE {
                None
            } else {
                Some((index - GRID_SIDE) as usize)
            },
            Direction::Left => if index == 0 {
                None
            } else {
                Some((index - 1) as usize)
            },
            Direction::Right => if index >= GRID_SIDE * GRID_SIDE - 1 {
                None
            } else {
                Some((index + 1) as usize)
            },
            Direction::Down => if index >= GRID_SIDE * (GRID_SIDE - 1) {
                None
            } else {
                Some((index + GRID_SIDE) as usize)
            },
        }
    }

    /// Moves the cursor one step, if the grid allows. Returns whether it
    /// moved.
    pub fn move_cursor(&mut self, direction: Direction) -> (moved: bool)
        ensures
            moved == Self::stepped(old(self).index, direction) is Some,
            final(self).index == match Self::stepped(old(self).index, direction) {
                Some(index) => index,
                None => old(self).index,
            },
    {
        match direction {
            Direction::Up => {
                if self.index < GRID_SIDE {
                    false
                } else {
                    self.index = self.index - GRID_SIDE;
                    true
                }
            },
            Direction::Left => {
                if self.index == 0 {
                    false
                } else {
                    self.index = self.index - 1;
                    true
                }
            },
            Direction::Right => {
                if self.index >= GRID_SIDE * GRID_SIDE - 1 {
                    false
                } else {
                    self.index = self.index + 1;
                    true
                }
            },
            Direction::Down => {
                if self.index >= GRID_SIDE * (GRID_SIDE - 1) {
                    false
                } else {
                    self.index = self.index + GRID_SIDE;
                    true
                }
            },
        }
    }
}

/// How many of the player's spirits stand before position `i`.
pub open spec fn allies_before(combatants: Seq<CombatantView>, i: int) -> nat
    decreases i,
{
    if i <= 0 {
        0
    } else {
        allies_before(combatants, i - 1) + if combatants[i - 1].is_ally() {
            1nat
        } else {
            0nat
        }
    }
}

/// Whether the combatant at `i` is the player's spirit under the cursor and
/// fit to fight.
pub open spec fn eligible(combatants: Seq<CombatantView>, i: int, cursor: nat) -> bool {
    combatants[i].is_ally() && combatants[i].alive() && allies_before(combatants, i) == cursor
}

/// The position of the spirit the cursor sends in, if it is fit to fight.
pub open spec fn chosen_fighter(combatants: Seq<CombatantView>, cursor: nat) -> Option<int> {
    if exists|i: int| 0 <= i < combatants.len() && eligible(combatants, i, cursor) {
        Some(choose|i: int| 0 <= i < combatants.len() && eligible(combatants, i, cursor))
    } else {
        None
    }
}

/// The line-up with only the spirit under the cursor marked as fighting, and
/// that only if it is fit to fight.
pub open spec fn remarked(combatants: Seq<CombatantView>, cursor: nat) -> Seq<CombatantView> {
    Seq::new(
        combatants.len(),
        |i: int|
            if combatants[i].is_ally() {
                CombatantView {
                    player: Some(PlayerSpirit { active: eligible(combatants, i, cursor) }),
                    ..combatants[i]
                }
            } else {
                combatants[i]
            },
    )
}

/// Sends in the player's spirit under the cursor of the roster screen, if it
/// has health left: it alone is marked as fighting, the retreat is over, and
/// pending enemy turns and the combat-log line are dropped. Otherwise no
/// spirit is marked. Returns whether a spirit was sent in.
pub fn select_fighter(inventory_state: &InventoryState, battle: &mut Battle) -> (found: bool)
    requires
        old(battle).well_formed(),
    ensures
        final(battle).well_formed(),
        final(battle).line_up() == remarked(old(battle).line_up(), inventory_state.index as nat),
        found == chosen_fighter(old(battle).line_up(), inventory_state.index as nat) is Some,
        final(battle).state == if found {
            BattleState {
                active_entity: Some(
                    chosen_fighter(old(battle).line_up(), inventory_state.index as nat).unwrap() as usize,
                ),
                retreating: false,
                enemy_attacking: None,
                notification: None,
                ..old(battle).state
            }
        } else {
            old(battle).state
        },
{
    let ghost before = battle.line_up();
    let ghost cursor = inventory_state.index as nat;
    let mut rank: usize = 0;
    let mut found: Option<usize> = None;
    let mut i: usize = 0;
    while i < battle.combatants.len()
        invariant
            i <= battle.combatants@.len(),
            battle.combatants@.len() == before.len(),
            battle.state == old(battle).state,
            cursor == inventory_state.index,
            rank == allies_before(before, i as int),
            rank <= i,
            forall|j: int| 0 <= j < i ==> (#[trigger] battle.combatants@[j])@ == remarked(before, cursor)[j],
            forall|j: int| i <= j < before.len() ==> (#[trigger] battle.combatants@[j])@ == before[j],
            forall|j: int|
                0 <= j < before.len() ==> (#[trigger] battle.combatants@[j]).spirit.well_formed(),
            found is None ==> forall|j: int| 0 <= j < i ==> !eligible(before, j, cursor),
            found matches Some(at) ==> at < i && eligible(before, at as int, cursor),
        decreases battle.combatants@.len() - i,
    {
        if battle.combatants[i].player.is_some() {
            let fit = rank == inventory_state.index && battle.combatants[i].spirit.health > 0;
            if fit {
                found = Some(i);
            }
            battle.combatants[i].player = Some(PlayerSpirit { active: fit });
            rank = rank + 1;
        }
        i = i + 1;
    }
    proof {
        assert(battle.line_up() =~= remarked(before, cursor));
        assert(any_queue_active(battle.line_up()) ==> any_queue_active(before)) by {
            if any_queue_active(battle.line_up()) {
                let j = choose|j: int|
                    0 <= j < battle.line_up().len() && (#[trigger] battle.line_up()[j]).effects.len() > 0;
                assert(before[j].effects.len() > 0);
            }
        }
    }
    match found {
        Some(at) => {
            proof {
                lemma_one_under_cursor(before, cursor, at as int);
            }
            battle.state.active_entity = Some(at);
            battle.state.retreating = false;
            battle.state.enemy_attacking = None;
            battle.state.notification = None;
            true
        },
        None => false,
    }
}

/// Among the player's spirits the cursor names one at most.
pub proof fn lemma_one_under_cursor(combatants: Seq<CombatantView>, cursor: nat, at: int)
    requires
        0 <= at < combatants.len(),
        eligible(combatants, at, cursor),
    ensures
        chosen_fighter(combatants, cursor) == Some(at),
{
    let other = choose|i: int| 0 <= i < combatants.len() && eligible(combatants, i, cursor);
    if other < at {
        lemma_allies_before_grows(combatants, other, at);
    } else if at < other {
        lemma_allies_before_grows(combatants, at, other);
    }
}

/// Past one of the player's spirits the count of those before grows.
pub proof fn lemma_allies_before_grows(combatants: Seq<CombatantView>, i: int, j: int)
    requires
        0 <= i < j,
        combatants[i].is_ally(),
    ensures
        allies_before(combatants, i) < allies_before(combatants, j),
    decreases j - i,
{
    if i + 1 < j {
        lemma_allies_before_grows(combatants, i, j - 1);
    }
}

/// Commits the move under the cursor, where the battle allows it.
pub fn select_target(battle: &mut Battle)
    requires
        old(battle).well_formed(),
    ensures
        final(battle).well_formed(),
        final(battle).combatants == old(battle).combatants,
        final(battle).state == if old(battle).state.may_commit() {
            BattleState { activate: true, ..old(battle).state }
        } else {
            old(battle).state
        },
{
    battle.want_attack();
}

/// Where a step takes the cursor on the two-by-two grid of moves: up and
/// down change the row, left and right step to the neighbour, wrapping
/// around.
pub open spec fn select_move(index: usize, direction: Direction) -> usize {
    let shift: int = match direction {
        Direction::Up => -2,
        Direction::Down => 2,
        Direction::Left => -1,
        Direction::Right => 1,
    };
    ((index + shift) % 4) as usize
}

impl BattleState {
    /// Moves the cursor over the moves one step, if there is a cursor.
    /// Returns whether there is.
    pub fn select_move(&mut self, direction: Direction) -> (moved: bool)
        ensures
            moved == old(self).combat_move is Some,
            *final(self) == match old(self).combat_move {
                Some(index) => BattleState {
                    combat_move: Some(select_move(index, direction)),
                    ..*old(self)
                },
                None => *old(self),
            },
    {
        match self.combat_move {
            Some(index) => {
                let shift: usize = match direction {
                    Direction::Up => 2,
                    Direction::Down => 2,
                    Direction::Left => 3,
                    Direction::Right => 1,
                };
                self.combat_move = Some((index % 4 + shift) % 4);
                true
            },
            None => false,
        }
    }
}

/// What the battle menu makes of an input: the phase, the input left over
/// and the sound to play. While a combat-log line is on display, any input
/// acknowledges it once the effects have drained, and does nothing else.
/// Otherwise a direction moves the cursor, select commits the move where
/// that is allowed, and escape retreats.
pub open spec fn battle_menu_step(state: BattleState, input: InputState) -> (
    BattleState,
    InputState,
    Option<SoundCue>,
) {
    if state.notification is Some {
        if input != InputState::Rest && !state.animating {
            (BattleState { notification: None, ..state }, InputState::Rest, Some(SoundCue::Confirm))
        } else {
            (state, input, None)
        }
    } else {
        match input {
            InputState::Rest => (state, input, None),
            InputState::Move(direction) => match state.combat_move {
                Some(index) => (
                    BattleState { combat_move: Some(select_move(index, direction)), ..state },
                    InputState::Rest,
                    Some(SoundCue::Blip),
                ),
                None => (state, InputState::Rest, None),
            },
            InputState::Select => (
                if state.may_commit() {
                    BattleState { activate: true, ..state }
                } else {
                    state
                },
                InputState::Rest,
                None,
            ),
            InputState::Escape => (
                BattleState { active_entity: None, retreating: true, ..state },
                InputState::Rest,
                None,
            ),
        }
    }
}

/// Serves the player's input while a battle is fought.
pub struct HandleBattleMenu;

impl HandleBattleMenu {
    /// Applies the input to the battle menu. Outside a battle, and while the
    /// player is choosing a new fighter, nothing happens.
    pub fn run(
        &mut self,
        play_state: &PlayState,
        input_state: &mut InputState,
        battle_state: &mut BattleState,
    ) -> (sound: Option<SoundCue>)
        ensures
            (*final(battle_state), *final(input_state), sound) == if *play_state is InBattle
                && !old(battle_state).retreating {
                battle_menu_step(*old(battle_state), *old(input_state))
            } else {
                (*old(battle_state), *old(input_state), None)
            },
    {
        match play_state {
            PlayState::InBattle => {},
            _ => {
                return None;
            },
        }
        if battle_state.retreating {
            return None;
        }
        if battle_state.notifying() {
            if *input_state != InputState::Rest && !battle_state.animating {
                battle_state.clear_notification();
                *input_state = InputState::Rest;
                return Some(SoundCue::Confirm);
            }
            return None;
        }
        match *input_state {
            InputState::Rest => None,
            InputState::Move(direction) => {
                *input_state = InputState::Rest;
                if battle_state.select_move(direction) {
                    Some(SoundCue::Blip)
                } else {
                    None
                }
            },
            InputState::Select => {
                battle_state.want_attack();
                *input_state = InputState::Rest;
                None
            },
            InputState::Escape => {
                battle_state.retreat();
                *input_state = InputState::Rest;
                None
            },
        }
    }
}

/// Serves the player's input on the roster screen, where spirits are fused
/// between battles and a new fighter is chosen during a retreat.
pub struct HandleInventory;

impl HandleInventory {
    /// Applies the input to the roster screen. Between battles a direction
    /// moves the cursor, select fuses the spirit under it where the roster
    /// allows, and escape goes back to the world. During a retreat a
    /// direction moves the cursor and select sends in the spirit under it.
    /// Anywhere else nothing happens.
    pub fn run(
        &mut self,
        play_state: &mut PlayState,
        input_state: &mut InputState,
        battle: &mut Battle,
        inventory_state: &mut InventoryState,
        player: &mut Player,
    ) -> (sound: Option<SoundCue>)
        requires
            old(battle).well_formed(),
            old(player).well_formed(),
            can_fuse(old(player).spirits@, old(inventory_state).index as int) ==> old(
                player,
            ).spirits@[old(inventory_state).index as int].max_health * 4 <= u32::MAX,
        ensures
            final(battle).well_formed(),
            final(player).well_formed(),
            Self::served(
                (*old(play_state), *old(input_state), *old(battle), *old(inventory_state), *old(player)),
                (
                    *final(play_state),
                    *final(input_state),
                    *final(battle),
                    *final(inventory_state),
                    *final(player),
                ),
                sound,
            ),
    {
        let combining = match play_state {
            PlayState::Combining => true,
            _ => false,
        };
        let choosing = match play_state {
            PlayState::InBattle => battle.state.retreating,
            _ => false,
        };
        if !combining && !choosing {
            return None;
        }
        match *input_state {
            InputState::Move(direction) => {
                *input_state = InputState::Rest;
                if inventory_state.move_cursor(direction) {
                    Some(SoundCue::Blip)
                } else {
                    None
                }
            },
            InputState::Select => {
                *input_state = InputState::Rest;
                if combining {
                    if combine_spirits(player, inventory_state.index) {
                        Some(SoundCue::Collide)
                    } else {
                        None
                    }
                } else {
                    if select_fighter(inventory_state, battle) {
                        Some(SoundCue::Confirm)
                    } else {
                        None
                    }
                }
            },
            InputState::Escape => {
                if combining {
                    *play_state = PlayState::InWorld;
                    *input_state = InputState::Rest;
                    Some(SoundCue::Cancel)
                } else {
                    None
                }
            },
            InputState::Rest => None,
        }
    }

    /// Relates what the roster screen was handed to what it left behind.
    /// Both tuples hold the phase of play, the input, the battle, the cursor
    /// and the player.
    pub open spec fn served(
        before: (PlayState, InputState, Battle, InventoryState, Player),
        after: (PlayState, InputState, Battle, InventoryState, Player),
        sound: Option<SoundCue>,
    ) -> bool {
        let (play_state, input, battle, cursor, player) = before;
        let combining = play_state is Combining;
        let choosing = play_state is InBattle && battle.state.retreating;
        if !combining && !choosing {
            after == before && sound is None
        } else {
            match input {
                InputState::Rest => after == before && sound is None,
                InputState::Move(direction) => {
                    let stepped = InventoryState::stepped(cursor.index, direction);
                    &&& after.0 == play_state
                    &&& after.1 == InputState::Rest
                    &&& after.2 == battle
                    &&& after.3.index == if stepped is Some {
                        stepped.unwrap()
                    } else {
                        cursor.index
                    }
                    &&& after.4 == player
                    &&& sound == if stepped is Some {
                        Some(SoundCue::Blip)
                    } else {
                        None
                    }
                },
                InputState::Select => {
                    &&& after.0 == play_state
                    &&& after.1 == InputState::Rest
                    &&& after.3 == cursor
                    &&& if combining {
                        let fused = can_fuse(player.spirits@, cursor.index as int);
                        &&& after.2 == battle
                        &&& after.4.spirits@ == if fused {
                            fused_roster(player.spirits@, cursor.index as int)
                        } else {
                            player.spirits@
                        }
                        &&& sound == if fused {
                            Some(SoundCue::Collide)
                        } else {
                            None
                        }
                    } else {
                        let chosen = chosen_fighter(battle.line_up(), cursor.index as nat);
                        &&& after.4 == player
                        &&& after.2.line_up() == remarked(battle.line_up(), cursor.index as nat)
                        &&& after.2.state == if chosen is Some {
                            BattleState {
                                active_entity: Some(chosen.unwrap() as usize),
                                retreating: false,
                                enemy_attacking: None,
                                notification: None,
                                ..battle.state
                            }
                        } else {
                            battle.state
                        }
                        &&& sound == if chosen is Some {
                            Some(SoundCue::Confirm)
                        } else {
                            None
                        }
                    }
                },
                InputState::Escape => if combining {
                    &&& after.0 is InWorld
                    &&& after.1 == InputState::Rest
                    &&& after.2 == battle
                    &&& after.3 == cursor
                    &&& after.4 == player
                    &&& sound == Some(SoundCue::Cancel)
                } else {
                    after == before && sound is None
                },
            }
        }
    }
}

/// Serves the player's input on the screen that shows a victory's spoils.
pub struct HandleLootMenu;

impl HandleLootMenu {
    /// Select or escape leaves the spoils for the world; nothing else does
    /// anything.
    pub fn run(&mut self, play_state: &mut PlayState, input_state: &mut InputState) -> (sound: Option<
        SoundCue,
    >)
        ensures
            if *old(play_state) is Looting && (*old(input_state) == InputState::Select || *old(
                input_state,
            ) == InputState::Escape) {
                &&& *final(play_state) is InWorld
                &&& *final(input_state) == InputState::Rest
                &&& sound == Some(SoundCue::Confirm)
            } else {
                &&& *final(play_state) == *old(play_state)
                &&& *final(input_state) == *old(input_state)
                &&& sound is None
            },
    {
        let looting = match play_state {
            PlayState::Looting { .. } => true,
            _ => false,
        };
        let leaving = match *input_state {
            InputState::Select => true,
            InputState::Escape => true,
            _ => false,
        };
        if looting && leaving {
            *input_state = InputState::Rest;
            *play_state = PlayState::InWorld;
            Some(SoundCue::Confirm)
        } else {
            None
        }
    }
}

/// The main menu's entry that a direction points at.
pub open spec fn menu_entry(direction: Direction) -> u32 {
    match direction {
        Direction::Up => 0,
        Direction::Right => 1,
        Direction::Down => 2,
        Direction::Left => 3,
    }
}

/// Serves the player's input on the main menu and after the game is over.
pub struct HandleMainMenu;

impl HandleMainMenu {
    /// On the main menu a direction picks an entry, and select on the first
    /// entry enters the dungeon at its top. After a defeat any input leads
    /// back to the main menu. Nothing else does anything.
    pub fn run(&mut self, play_state: &mut PlayState, input_state: &mut InputState) -> (sound: Option<
        SoundCue,
    >)
        ensures
            Self::served(
                (*old(play_state), *old(input_state)),
                (*final(play_state), *final(input_state)),
                sound,
            ),
    {
        match (&*play_state, *input_state) {
            (PlayState::MainMenu(_), InputState::Move(direction)) => {
                *input_state = InputState::Rest;
                *play_state = PlayState::MainMenu(
                    match direction {
                        Direction::Up => 0,
                        Direction::Right => 1,
                        Direction::Down => 2,
                        Direction::Left => 3,
                    },
                );
                Some(SoundCue::Blip)
            },
            (PlayState::MainMenu(0), InputState::Select) => {
                *input_state = InputState::Rest;
                *play_state = PlayState::Stairs(0);
                Some(SoundCue::Confirm)
            },
            (PlayState::GameOver, InputState::Move(_))
            | (PlayState::GameOver, InputState::Select)
            | (PlayState::GameOver, InputState::Escape) => {
                *input_state = InputState::Rest;
                *play_state = PlayState::MainMenu(0);
                Some(SoundCue::Confirm)
            },
            _ => None,
        }
    }

    /// Relates phase and input before the main menu served them to phase and
    /// input after.
    pub open spec fn served(
        before: (PlayState, InputState),
        after: (PlayState, InputState),
        sound: Option<SoundCue>,
    ) -> bool {
        match before {
            (PlayState::MainMenu(_), InputState::Move(direction)) => {
                &&& after.0 == PlayState::MainMenu(menu_entry(direction))
                &&& after.1 == InputState::Rest
                &&& sound == Some(SoundCue::Blip)
            },
            (PlayState::MainMenu(entry), InputState::Select) => if entry == 0 {
                &&& after.0 == PlayState::Stairs(0)
                &&& after.1 == InputState::Rest
                &&& sound == Some(SoundCue::Confirm)
            } else {
                after == before && sound is None
            },
            (PlayState::GameOver, input) => if input != InputState::Rest {
                &&& after.0 == PlayState::MainMenu(0)
                &&& after.1 == InputState::Rest
                &&& sound == Some(SoundCue::Confirm)
            } else {
                after == before && sound is None
            },
            _ => after == before && sound is None,
        }
    }
}

/// What the world makes of an input.
#[derive(Clone, Copy, Debug)]
pub struct WorldReport {
    /// The player's party is to take a step in this direction, where the
    /// level has ground there.
    pub walk: Option<Direction>,
    pub sound: Option<SoundCue>,
}

/// Serves the player's input while walking the dungeon.
pub struct HandleMove;

impl HandleMove {
    /// In the world a direction asks for a step and escape opens the roster
    /// screen. Nothing else does anything.
    pub fn run(&mut self, play_state: &mut PlayState, input_state: &mut InputState) -> (report:
        WorldReport)
        ensures
            match (*old(play_state), *old(input_state)) {
                (PlayState::InWorld, InputState::Move(direction)) => {
                    &&& *final(play_state) is InWorld
                    &&& *final(input_state) == InputState::Rest
                    &&& report.walk == Some(direction)
                    &&& report.sound is None
                },
                (PlayState::InWorld, InputState::Escape) => {
                    &&& *final(play_state) is Combining
                    &&& *final(input_state) == InputState::Rest
                    &&& report.walk is None
                    &&& report.sound == Some(SoundCue::Cancel)
                },
                _ => {
                    &&& *final(play_state) == *old(play_state)
                    &&& *final(input_state) == *old(input_state)
                    &&& report.walk is None
                    &&& report.sound is None
                },
            },
    {
        match (&*play_state, *input_state) {
            (PlayState::InWorld, InputState::Move(direction)) => {
                *input_state = InputState::Rest;
                WorldReport { walk: Some(direction), sound: None }
            },
            (PlayState::InWorld, InputState::Escape) => {
                *input_state = InputState::Rest;
                *play_state = PlayState::Combining;
                WorldReport { walk: None, sound: Some(SoundCue::Cancel) }
            },
            _ => WorldReport { walk: None, sound: None },
        }
    }
}

} // verus!
