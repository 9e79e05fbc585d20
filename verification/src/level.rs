//! A level of the dungeon as a whole: how it is made, who is put where, and
//! how the player's party and the roaming bands move across it.

use vstd::prelude::*;
use crate::battle::Battle;
use crate::chance::{pick_one, random_below};
use crate::element::SpiritType;
use crate::encounter::Encounter;
use crate::maze::{gen_maze, leads_home};
use crate::play::{Direction, PlayState};
use crate::roster::Player;
use crate::spirit::Spirit;
use crate::world::{
    ground_at, move_by, step_from, tiles_for_rooms, Level, Stair, WorldEntity, ROOM_SIZE,
};

verus! {

/// Rooms along each side of a level.
pub const LEVEL_SIDE: u32 = 5;

/// The tile in the middle of a room.
pub open spec fn room_centre(room: (u32, u32)) -> (u32, u32) {
    ((room.0 * ROOM_SIZE + ROOM_SIZE / 2) as u32, (room.1 * ROOM_SIZE + ROOM_SIZE / 2) as u32)
}

/// Out of ten rooms this many hold a band, on average: four at the top of
/// the dungeon, one more with each level down, eight at most.
pub open spec fn spawn_odds(depth: u32) -> int {
    if depth + 4 < 8 {
        depth + 4
    } else {
        8
    }
}

/// The rooms that get a band, row by row, for one die per room: every room
/// but the entrance and the exit whose die shows less than the odds.
pub open spec fn spawn_rooms(level: Level, rolls: Seq<u32>, rooms: nat) -> Seq<(u32, u32)>
    decreases rooms,
{
    if rooms == 0 {
        Seq::empty()
    } else {
        let index = (rooms - 1) as int;
        let room = ((index % level.rooms.width as int) as u32, (index / level.rooms.width as int) as u32);
        let earlier = spawn_rooms(level, rolls, (rooms - 1) as nat);
        if room != level.entrance && room != level.exit && rolls[index] < spawn_odds(level.depth) {
            earlier.push(room)
        } else {
            earlier
        }
    }
}

/// Who is to be put where when a level is entered.
#[derive(Debug)]
pub struct SpawnPlan {
    /// At the top of the dungeon the player starts over with this party at
    /// this place.
    pub new_player: Option<(WorldEntity, Player)>,
    /// Further down the player's party arrives here.
    pub arrival: (u32, u32),
    /// The stairs down and where they stand.
    pub stair: (WorldEntity, Stair),
    /// The bands that roam the level and where each starts.
    pub encounters: Vec<(WorldEntity, Encounter)>,
}

impl Level {
    /// The level's maps fit each other, and entrance and exit are rooms of
    /// it.
    pub open spec fn well_formed(self) -> bool {
        &&& self.rooms.well_formed()
        &&& self.tiles.well_formed()
        &&& self.rooms.width >= 1
        &&& self.rooms.height >= 1
        &&& self.tiles.width == self.rooms.width * ROOM_SIZE
        &&& self.tiles.height == self.rooms.height * ROOM_SIZE
        &&& self.rooms.contains(self.entrance.0 as int, self.entrance.1 as int)
        &&& self.rooms.contains(self.exit.0 as int, self.exit.1 as int)
    }

    /// Whether the level is well formed.
    pub fn check(&self) -> (ok: bool)
        ensures
            ok == self.well_formed(),
    {
        self.rooms.check() && self.tiles.check() && self.rooms.width >= 1 && self.rooms.height >= 1
            && self.tiles.width as u64 == self.rooms.width as u64 * ROOM_SIZE as u64
            && self.tiles.height as u64 == self.rooms.height as u64 * ROOM_SIZE as u64
            && self.entrance.0 < self.rooms.width && self.entrance.1 < self.rooms.height
            && self.exit.0 < self.rooms.width && self.exit.1 < self.rooms.height
    }

    /// A new level at a depth: a maze of five by five rooms that are all
    /// connected, entered at the first room and left by a room in the far
    /// corner or next to it.
    pub fn new(depth: u32) -> (level: Level)
        ensures
            level.well_formed(),
            level.depth == depth,
            level.rooms.width == LEVEL_SIDE,
            level.rooms.height == LEVEL_SIDE,
            level.entrance == (0u32, 0u32),
            LEVEL_SIDE - 2 <= level.exit.0 < LEVEL_SIDE,
            LEVEL_SIDE - 2 <= level.exit.1 < LEVEL_SIDE,
            forall|x: int, y: int|
                level.rooms.contains(x, y) ==> (#[trigger] level.rooms.at(x, y)).visited,
            exists|towards: Map<(int, int), (int, int)>, rank: Map<(int, int), nat>|
                leads_home(level.rooms, towards, rank),
            forall|x: int, y: int|
                level.tiles.active_at(x, y) == (0 <= x && 0 <= y && #[trigger] ground_at(
                    level.rooms,
                    ROOM_SIZE as int,
                    x,
                    y,
                )),
    {
        let exit = (LEVEL_SIDE - random_below(2) - 1, LEVEL_SIDE - random_below(2) - 1);
        let rooms = gen_maze((LEVEL_SIDE, LEVEL_SIDE));
        let tiles = tiles_for_rooms(ROOM_SIZE, &rooms);
        Level { depth, tiles, rooms, entrance: (0, 0), exit }
    }

    /// Whether the level has ground at a location.
    pub fn has_tile(&self, loc: (u32, u32)) -> (ground: bool)
        ensures
            ground == self.tiles.active_at(loc.0 as int, loc.1 as int),
    {
        self.tiles.has_tile(loc)
    }

    /// The rooms that get a band for the given dice, one die per room, row
    /// by row.
    pub fn spawn_rooms_from(&self, rolls: &Vec<u32>) -> (rooms: Vec<(u32, u32)>)
        requires
            self.well_formed(),
            rolls@.len() == self.rooms.width * self.rooms.height,
        ensures
            rooms@ == spawn_rooms(*self, rolls@, rolls@.len()),
            forall|k: int|
                0 <= k < rooms@.len() ==> self.rooms.contains(
                    (#[trigger] rooms@[k]).0 as int,
                    rooms@[k].1 as int,
                ),
    {
        let odds: u32 = if self.depth < 4 {
            self.depth + 4
        } else {
            8
        };
        let mut rooms: Vec<(u32, u32)> = Vec::new();
        let mut k: usize = 0;
        while k < rolls.len()
            invariant
                k <= rolls@.len(),
                self.well_formed(),
                rolls@.len() == self.rooms.width * self.rooms.height,
                odds == spawn_odds(self.depth),
                rooms@ == spawn_rooms(*self, rolls@, k as nat),
                forall|j: int|
                    0 <= j < rooms@.len() ==> self.rooms.contains(
                        (#[trigger] rooms@[j]).0 as int,
                        rooms@[j].1 as int,
                    ),
            decreases rolls@.len() - k,
        {
            proof {
                crate::world::lemma_cell_of_index(
                    k as int,
                    self.rooms.width as int,
                    self.rooms.height as int,
                );
            }
            let room = (
                (k % self.rooms.width as usize) as u32,
                (k / self.rooms.width as usize) as u32,
            );
            if !(room.0 == self.entrance.0 && room.1 == self.entrance.1) && !(room.0 == self.exit.0
                && room.1 == self.exit.1) && rolls[k] < odds {
                rooms.push(room);
            }
            k = k + 1;
        }
        rooms
    }

    /// Plans who is put where when the level is entered: a new party for the
    /// player at the top of the dungeon, the place of arrival further down,
    /// the stairs in the exit room, and a band in the middle of each room
    /// that the dice pick.
    pub fn spawn_encounters(&self) -> (plan: SpawnPlan)
        requires
            self.well_formed(),
            self.rooms.width * ROOM_SIZE <= u32::MAX,
            self.rooms.height * ROOM_SIZE <= u32::MAX,
            5 * (self.depth + 1) <= u32::MAX,
        ensures
            plan.new_player is Some == (self.depth == 0),
            plan.new_player matches Some((place, player)) ==> {
                &&& place.location == (2u32, 2u32)
                &&& player.spirits@.len() == 3
                &&& player.spirits@[0].newly_made(SpiritType::Fire(0), true)
                &&& player.spirits@[1].newly_made(SpiritType::Water(0), true)
                &&& player.spirits@[2].newly_made(SpiritType::Slime(0), true)
            },
            plan.arrival == room_centre(self.entrance),
            plan.stair.0.location == room_centre(self.exit),
            plan.stair.1.depth == self.depth + 1,
            exists|rolls: Seq<u32>|
                {
                    &&& rolls.len() == self.rooms.width * self.rooms.height
                    &&& forall|k: int| 0 <= k < rolls.len() ==> (#[trigger] rolls[k]) < 10
                    &&& plan.encounters@.len() == (#[trigger] spawn_rooms(
                        *self,
                        rolls,
                        rolls.len(),
                    )).len()
                    &&& forall|k: int|
                        0 <= k < plan.encounters@.len() ==> (#[trigger] plan.encounters@[k]).0.location
                            == room_centre(spawn_rooms(*self, rolls, rolls.len())[k])
                }
            ,
            forall|k: int|
                0 <= k < plan.encounters@.len() ==> Encounter::band_for(
                    (#[trigger] plan.encounters@[k]).1.spirits@,
                    self.depth,
                ),
    {
        let new_player = if self.depth == 0 {
            let mut spirits: Vec<Spirit> = Vec::new();
            spirits.push(Spirit::new(SpiritType::Fire(0), true));
            spirits.push(Spirit::new(SpiritType::Water(0), true));
            spirits.push(Spirit::new(SpiritType::Slime(0), true));
            Some((WorldEntity { location: (2, 2) }, Player { spirits }))
        } else {
            None
        };
        let cells = self.rooms.rooms.len();
        let mut rolls: Vec<u32> = Vec::new();
        let mut k: usize = 0;
        while k < cells
            invariant
                k <= cells,
                rolls@.len() == k,
                forall|j: int| 0 <= j < k ==> (#[trigger] rolls@[j]) < 10,
            decreases cells - k,
        {
            rolls.push(random_below(10));
            k = k + 1;
        }
        let rooms = self.spawn_rooms_from(&rolls);
        let mut encounters: Vec<(WorldEntity, Encounter)> = Vec::new();
        let mut i: usize = 0;
        while i < rooms.len()
            invariant
                i <= rooms@.len(),
                self.well_formed(),
                self.rooms.width * ROOM_SIZE <= u32::MAX,
                self.rooms.height * ROOM_SIZE <= u32::MAX,
                5 * (self.depth + 1) <= u32::MAX,
                encounters@.len() == i,
                forall|j: int|
                    0 <= j < rooms@.len() ==> self.rooms.contains(
                        (#[trigger] rooms@[j]).0 as int,
                        rooms@[j].1 as int,
                    ),
                forall|j: int|
                    0 <= j < i ==> (#[trigger] encounters@[j]).0.location == room_centre(rooms@[j]),
                forall|j: int|
                    0 <= j < i ==> Encounter::band_for(
                        (#[trigger] encounters@[j]).1.spirits@,
                        self.depth,
                    ),
            decreases rooms@.len() - i,
        {
            let room = rooms[i];
            let place = self.centre_of(room);
            encounters.push((WorldEntity { location: place }, Encounter::new(self.depth)));
            i = i + 1;
        }
        let plan = SpawnPlan {
            new_player,
            arrival: self.centre_of(self.entrance),
            stair: (
                WorldEntity { location: self.centre_of(self.exit) },
                Stair { depth: self.depth + 1 },
            ),
            encounters,
        };
        proof {
            assert(plan.encounters@.len() == spawn_rooms(*self, rolls@, rolls@.len()).len());
        }
        plan
    }

    /// The tile in the middle of a room of the level.
    pub fn centre_of(&self, room: (u32, u32)) -> (centre: (u32, u32))
        requires
            self.rooms.contains(room.0 as int, room.1 as int),
            self.rooms.width * ROOM_SIZE <= u32::MAX,
            self.rooms.height * ROOM_SIZE <= u32::MAX,
        ensures
            centre == room_centre(room),
    {
        assert(room.0 * ROOM_SIZE + ROOM_SIZE / 2 < self.rooms.width * ROOM_SIZE) by (nonlinear_arith)
            requires
                room.0 + 1 <= self.rooms.width,
        ;
        assert(room.1 * ROOM_SIZE + ROOM_SIZE / 2 < self.rooms.height * ROOM_SIZE) by (nonlinear_arith)
            requires
                room.1 + 1 <= self.rooms.height,
        ;
        (room.0 * ROOM_SIZE + ROOM_SIZE / 2, room.1 * ROOM_SIZE + ROOM_SIZE / 2)
    }
}

/// Where a step in a direction leads on a level: to the next location, if
/// the level has ground there.
pub open spec fn step_in_level(loc: (u32, u32), direction: Direction, level: Level) -> Option<
    (u32, u32),
> {
    match step_from(loc, direction) {
        Some(next) => if level.tiles.active_at(next.0 as int, next.1 as int) {
            Some(next)
        } else {
            None
        },
        None => None,
    }
}

/// Takes a step in a direction, if the level has ground there.
pub fn move_in_level(loc: (u32, u32), direction: &Direction, level: &Level) -> (next: Option<
    (u32, u32),
>)
    ensures
        next == step_in_level(loc, *direction, *level),
{
    match move_by(loc, direction) {
        Some(next) => {
            if level.has_tile(next) {
                Some(next)
            } else {
                None
            }
        },
        None => None,
    }
}

/// Moves the party one step in a direction, if the game is in the world and
/// the level has ground there.
pub fn handle_arrow(
    play_state: &PlayState,
    direction: Direction,
    party: &mut WorldEntity,
    level: &Level,
)
    ensures
        final(party).location == if *play_state is InWorld {
            after_step(old(party).location, direction, *level)
        } else {
            old(party).location
        },
{
    match play_state {
        PlayState::InWorld => {
            match move_in_level(party.location, &direction, level) {
                Some(next) => {
                    party.location = next;
                },
                None => {},
            }
        },
        _ => {},
    }
}

/// The direction a roaming band's die stands for.
pub open spec fn heading(pick: int) -> Direction {
    if pick == 0 {
        Direction::Up
    } else if pick == 1 {
        Direction::Right
    } else if pick == 2 {
        Direction::Down
    } else {
        Direction::Left
    }
}

/// Where something ends up that tries a step: at the next location, or
/// where it was if the level has no ground there.
pub open spec fn after_step(loc: (u32, u32), direction: Direction, level: Level) -> (u32, u32) {
    match step_in_level(loc, direction, level) {
        Some(next) => next,
        None => loc,
    }
}

/// Lets the bands roam the level.
pub struct WanderEncounters;

impl WanderEncounters {
    /// Lets `delta` nanoseconds pass for a band. When its step is due, it
    /// tries a step in a direction picked at random.
    pub fn run(
        &mut self,
        encounter: &mut Encounter,
        world_entity: &mut WorldEntity,
        level: &Level,
        delta: u64,
    )
        ensures
            final(encounter).spirits == old(encounter).spirits,
            final(encounter).period == old(encounter).period,
            final(encounter).duration == if delta > old(encounter).duration {
                old(encounter).period as int
            } else {
                old(encounter).duration - delta
            },
            delta <= old(encounter).duration ==> final(world_entity).location == old(
                world_entity,
            ).location,
            delta > old(encounter).duration ==> exists|pick: int|
                0 <= pick < 4 && final(world_entity).location == after_step(
                    old(world_entity).location,
                    #[trigger] heading(pick),
                    *level,
                ),
    {
        if encounter.update(delta) {
            let headings: Vec<usize> = vec![0, 1, 2, 3];
            let pick = match pick_one(&headings) {
                Some(pick) => pick,
                None => 0,
            };
            assert(headings@.contains(pick));
            let direction = match pick {
                0 => Direction::Up,
                1 => Direction::Right,
                2 => Direction::Down,
                _ => Direction::Left,
            };
            assert(direction == heading(pick as int));
            match move_in_level(world_entity.location, &direction, level) {
                Some(moved) => {
                    world_entity.location = moved;
                },
                None => {},
            }
        }
    }
}

/// The first band that stands where the player's party stands, by its
/// position in the list.
pub open spec fn first_met(places: Seq<(u32, u32)>, player_location: (u32, u32)) -> Option<int>
    decreases places.len(),
{
    if places.len() == 0 {
        None
    } else {
        match first_met(places.drop_last(), player_location) {
            Some(k) => Some(k),
            None => if places.last() == player_location {
                Some(places.len() - 1)
            } else {
                None
            },
        }
    }
}

/// Notices when the player's party runs into a band.
pub struct FindEncounters;

impl FindEncounters {
    /// While the party walks the level, a battle begins with the first band
    /// of the list that stands where the party stands. `names` gives each
    /// band the name by which the surroundings know it. Returns the position
    /// of the band that was met.
    pub fn run(
        &mut self,
        play_state: &mut PlayState,
        battle: &mut Battle,
        player_location: (u32, u32),
        player: &Player,
        names: &Vec<u32>,
        places: &Vec<(u32, u32)>,
        encounters: &Vec<Encounter>,
    ) -> (met: Option<usize>)
        requires
            old(battle).well_formed(),
            player.well_formed(),
            names@.len() == places@.len(),
            encounters@.len() == places@.len(),
            forall|k: int, i: int|
                0 <= k < encounters@.len() && 0 <= i < encounters@[k].spirits@.len() ==> (
                #[trigger] encounters@[k].spirits@[i]).well_formed(),
        ensures
            final(battle).well_formed(),
            met matches Some(k) ==> k < places@.len(),
            match met {
                Some(k) => {
                    &&& *old(play_state) is InWorld
                    &&& first_met(places@, player_location) == Some(k as int)
                    &&& *final(play_state) is InBattle
                    &&& final(battle).line_up() == Battle::opening(
                        encounters@[k as int].spirits@,
                        player.spirits@,
                    )
                    &&& final(battle).state.encounter_entity == Some(names@[k as int])
                    &&& final(battle).state.in_combat
                    &&& !final(battle).state.retreating
                    &&& !final(battle).state.activate
                    &&& !final(battle).state.animating
                    &&& final(battle).state.enemy_attacking is None
                    &&& final(battle).state.notification is None
                    &&& final(battle).state.combat_move == if player.spirits@.len() > 0 {
                        Some(0usize)
                    } else {
                        None
                    }
                    &&& final(battle).state.active_entity == if player.spirits@.len() > 0 {
                        Some(encounters@[k as int].spirits@.len() as usize)
                    } else {
                        None
                    }
                },
                None => {
                    &&& !(*old(play_state) is InWorld) || first_met(places@, player_location) is None
                    &&& *final(play_state) == *old(play_state)
                    &&& *final(battle) == *old(battle)
                },
            },
    {
        match play_state {
            PlayState::InWorld => {},
            _ => {
                return None;
            },
        }
        let mut k: usize = 0;
        while k < places.len()
            invariant
                k <= places@.len(),
                names@.len() == places@.len(),
                encounters@.len() == places@.len(),
                *battle == *old(battle),
                *play_state == *old(play_state),
                *old(play_state) is InWorld,
                battle.well_formed(),
                player.well_formed(),
                forall|k: int, i: int|
                    0 <= k < encounters@.len() && 0 <= i < encounters@[k].spirits@.len() ==> (
                    #[trigger] encounters@[k].spirits@[i]).well_formed(),
                first_met(places@.take(k as int), player_location) is None,
            decreases places@.len() - k,
        {
            proof {
                assert(places@.take(k + 1).drop_last() =~= places@.take(k as int));
            }
            if places[k].0 == player_location.0 && places[k].1 == player_location.1 {
                proof {
                    lemma_first_met_stays(places@, player_location, k + 1);
                }
                *battle = Battle::begin(names[k], &encounters[k].spirits, &player.spirits);
                *play_state = PlayState::InBattle;
                return Some(k);
            }
            k = k + 1;
        }
        proof {
            assert(places@.take(k as int) =~= places@);
        }
        None
    }
}

/// A band met among the first of a list is the band met in the whole list.
pub proof fn lemma_first_met_stays(places: Seq<(u32, u32)>, player_location: (u32, u32), upto: int)
    requires
        0 <= upto <= places.len(),
        first_met(places.take(upto), player_location) is Some,
    ensures
        first_met(places, player_location) == first_met(places.take(upto), player_location),
    decreases places.len() - upto,
{
    if upto < places.len() {
        assert(places.take(upto + 1).drop_last() =~= places.take(upto));
        lemma_first_met_stays(places, player_location, upto + 1);
    } else {
        assert(places.take(upto) =~= places);
    }
}

} // verus!
