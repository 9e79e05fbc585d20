//! The maze of a level: rooms joined by doors so that every room can be
//! reached from the first.

use vstd::prelude::*;
use crate::chance::{pick_one, random_below};
use crate::world::{lemma_cell_in_grid, lemma_index_of_cell, Room, RoomMap};

verus! {

/// How many rooms have not been visited.
pub open spec fn unvisited(rooms: Seq<Room>) -> nat
    decreases rooms.len(),
{
    if rooms.len() == 0 {
        0
    } else {
        unvisited(rooms.drop_last()) + if rooms.last().visited {
            0nat
        } else {
            1nat
        }
    }
}

/// Replacing one room changes the count of unvisited rooms by that room
/// alone.
pub proof fn lemma_unvisited_update(rooms: Seq<Room>, i: int, room: Room)
    requires
        0 <= i < rooms.len(),
    ensures
        unvisited(rooms.update(i, room)) + (if rooms[i].visited {
            0nat
        } else {
            1nat
        }) == unvisited(rooms) + (if room.visited {
            0nat
        } else {
            1nat
        }),
    decreases rooms.len(),
{
    let changed = rooms.update(i, room);
    if i == rooms.len() - 1 {
        assert(changed.drop_last() =~= rooms.drop_last());
    } else {
        lemma_unvisited_update(rooms.drop_last(), i, room);
        assert(changed.drop_last() =~= rooms.drop_last().update(i, room));
    }
}

/// The neighbour of a cell, listed if the map has it and it has not been
/// visited.
pub open spec fn candidate(map: RoomMap, x: int, y: int) -> Seq<(u32, u32)> {
    if map.contains(x, y) && !map.at(x, y).visited {
        seq![(x as u32, y as u32)]
    } else {
        Seq::empty()
    }
}

/// The unvisited neighbours of a cell: west, north, east, south.
pub open spec fn open_neighbours(map: RoomMap, x: int, y: int) -> Seq<(u32, u32)> {
    candidate(map, x - 1, y) + candidate(map, x, y - 1) + candidate(map, x + 1, y) + candidate(
        map,
        x,
        y + 1,
    )
}

/// All neighbours of the cell that the map has have been visited.
#[verifier::opaque]
pub open spec fn enclosed(map: RoomMap, x: int, y: int) -> bool {
    &&& map.contains(x - 1, y) ==> map.at(x - 1, y).visited
    &&& map.contains(x, y - 1) ==> map.at(x, y - 1).visited
    &&& map.contains(x + 1, y) ==> map.at(x + 1, y).visited
    &&& map.contains(x, y + 1) ==> map.at(x, y + 1).visited
}

/// Two cells are neighbours and each has a door towards the other.
pub open spec fn joined(map: RoomMap, a: (int, int), b: (int, int)) -> bool {
    let from = map.at(a.0, a.1);
    let to = map.at(b.0, b.1);
    ||| b == (a.0 - 1, a.1) && from.west && to.east
    ||| b == (a.0 + 1, a.1) && from.east && to.west
    ||| b == (a.0, a.1 - 1) && from.north && to.south
    ||| b == (a.0, a.1 + 1) && from.south && to.north
}

/// Every visited room but the first is joined to a room of lower rank: by
/// going from room to room of lower rank one arrives at the first.
#[verifier::opaque]
pub open spec fn leads_home(
    map: RoomMap,
    towards: Map<(int, int), (int, int)>,
    rank: Map<(int, int), nat>,
) -> bool {
    forall|x: int, y: int|
        map.contains(x, y) && (x, y) != (0int, 0int) && (#[trigger] map.at(x, y)).visited ==> {
            let next = towards[(x, y)];
            &&& map.contains(next.0, next.1)
            &&& map.at(next.0, next.1).visited
            &&& joined(map, (x, y), next)
            &&& rank[next] < rank[(x, y)]
        }
}

impl RoomMap {
    /// A map of rooms without doors that nobody has visited.
    pub fn sealed(width: u32, height: u32) -> (map: RoomMap)
        requires
            width * height <= usize::MAX,
        ensures
            map.well_formed(),
            map.width == width,
            map.height == height,
            forall|x: int, y: int|
                map.contains(x, y) ==> #[trigger] map.at(x, y) == (Room {
                    north: false,
                    east: false,
                    south: false,
                    west: false,
                    visited: false,
                }),
    {
        let total: usize = width as usize * height as usize;
        let mut rooms: Vec<Room> = Vec::new();
        let mut k: usize = 0;
        while k < total
            invariant
                k <= total,
                rooms@.len() == k,
                forall|i: int|
                    0 <= i < k ==> #[trigger] rooms@[i] == (Room {
                        north: false,
                        east: false,
                        south: false,
                        west: false,
                        visited: false,
                    }),
            decreases total - k,
        {
            rooms.push(Room { north: false, east: false, south: false, west: false, visited: false });
            k = k + 1;
        }
        let map = RoomMap { width, height, rooms };
        proof {
            assert forall|x: int, y: int| map.contains(x, y) implies #[trigger] map.at(x, y) == (Room {
                north: false,
                east: false,
                south: false,
                west: false,
                visited: false,
            }) by {
                lemma_cell_in_grid(x, y, width as int, height as int);
            }
        }
        map
    }

    /// Replaces the room at a cell.
    pub fn set(&mut self, x: u32, y: u32, room: Room)
        requires
            old(self).well_formed(),
            old(self).contains(x as int, y as int),
        ensures
            final(self).well_formed(),
            final(self).width == old(self).width,
            final(self).height == old(self).height,
            final(self).rooms@ == old(self).rooms@.update(y * old(self).width + x, room),
            0 <= y * old(self).width + x < old(self).rooms@.len(),
            old(self).rooms@[y * old(self).width + x] == old(self).at(x as int, y as int),
            final(self).at(x as int, y as int) == room,
            forall|i: int, j: int|
                old(self).contains(i, j) && (i, j) != (x as int, y as int) ==> #[trigger] final(self).at(
                    i,
                    j,
                ) == old(self).at(i, j),
    {
        let cells = self.rooms.len();
        proof {
            lemma_cell_in_grid(x as int, y as int, self.width as int, self.height as int);
        }
        let index = y as usize * self.width as usize + x as usize;
        self.rooms[index] = room;
        proof {
            let width = self.width as int;
            assert forall|i: int, j: int|
                old(self).contains(i, j) && (i, j) != (x as int, y as int) implies #[trigger] self.at(
                i,
                j,
            ) == old(self).at(i, j) by {
                lemma_cell_in_grid(i, j, width, self.height as int);
                lemma_index_of_cell(i, j, width);
                lemma_index_of_cell(x as int, y as int, width);
            }
        }
    }
}

/// Lists the unvisited neighbours of a cell.
pub fn unvisited_neighbors(location: &(u32, u32), rooms: &RoomMap) -> (unvisited: Vec<(u32, u32)>)
    requires
        rooms.well_formed(),
        rooms.contains(location.0 as int, location.1 as int),
    ensures
        unvisited@ == open_neighbours(*rooms, location.0 as int, location.1 as int),
{
    let mut unvisited: Vec<(u32, u32)> = Vec::new();
    let (x, y) = *location;
    if x > 0 {
        match rooms.get(x - 1, y) {
            Some(room) => {
                if !room.visited {
                    unvisited.push((x - 1, y));
                }
            },
            None => {},
        }
    }
    assert(unvisited@ =~= candidate(*rooms, x - 1, y as int));
    if y > 0 {
        match rooms.get(x, y - 1) {
            Some(room) => {
                if !room.visited {
                    unvisited.push((x, y - 1));
                }
            },
            None => {},
        }
    }
    assert(unvisited@ =~= candidate(*rooms, x - 1, y as int) + candidate(*rooms, x as int, y - 1));
    match rooms.get(x + 1, y) {
        Some(room) => {
            if !room.visited {
                unvisited.push((x + 1, y));
            }
        },
        None => {},
    }
    assert(unvisited@ =~= candidate(*rooms, x - 1, y as int) + candidate(*rooms, x as int, y - 1)
        + candidate(*rooms, x + 1, y as int));
    match rooms.get(x, y + 1) {
        Some(room) => {
            if !room.visited {
                unvisited.push((x, y + 1));
            }
        },
        None => {},
    }
    assert(unvisited@ =~= open_neighbours(*rooms, x as int, y as int));
    unvisited
}

/// Whether an extra door is put in: a die of five faces is thrown, and the
/// door is put in when its first face comes up. Either answer can come
/// back, so nothing holds of every throw.
fn extra_door() -> bool {
    let roll: u32 = random_below(DOOR_FACES);
    door_from_roll(roll)
}

/// Faces of the die that decides on an extra door.
pub const DOOR_FACES: u32 = 5;

/// Whether a face of the door die puts an extra door in: the first face
/// does, the others do not.
pub fn door_from_roll(roll: u32) -> (door: bool)
    ensures
        door == (roll == 0),
{
    roll == 0
}

/// The numbers below `count`, in order.
pub fn index_list(count: usize) -> (indices: Vec<usize>)
    ensures
        indices@.len() == count,
        forall|k: int| 0 <= k < count ==> #[trigger] indices@[k] == k,
{
    let mut indices: Vec<usize> = Vec::new();
    let mut k: usize = 0;
    while k < count
        invariant
            k <= count,
            indices@.len() == k,
            forall|j: int| 0 <= j < k ==> #[trigger] indices@[j] == j,
        decreases count - k,
    {
        indices.push(k);
        k = k + 1;
    }
    indices
}

/// Every listed neighbour is a cell of the map next to the given one that
/// has not been visited.
pub proof fn lemma_open_neighbour(map: RoomMap, x: int, y: int, k: int)
    requires
        0 <= k < open_neighbours(map, x, y).len(),
    ensures
        ({
            let (nx, ny) = open_neighbours(map, x, y)[k];
            &&& map.contains(nx as int, ny as int)
            &&& !map.at(nx as int, ny as int).visited
            &&& ((nx as int, ny as int) == (x - 1, y) || (nx as int, ny as int) == (x, y - 1) || (
            nx as int, ny as int) == (x + 1, y) || (nx as int, ny as int) == (x, y + 1))
        }),
{
    let west = candidate(map, x - 1, y);
    let north = candidate(map, x, y - 1);
    let east = candidate(map, x + 1, y);
    let south = candidate(map, x, y + 1);
    let all = open_neighbours(map, x, y);
    assert(all == west + north + east + south);
    if k < west.len() {
        assert(all[k] == west[k]);
    } else if k < west.len() + north.len() {
        assert(all[k] == north[k - west.len()]);
    } else if k < west.len() + north.len() + east.len() {
        assert(all[k] == east[k - west.len() - north.len()]);
    } else {
        assert(all[k] == south[k - west.len() - north.len() - east.len()]);
    }
}

/// Where every visited room is enclosed and the first room is visited,
/// every room is visited.
pub proof fn lemma_all_visited(map: RoomMap, x: int, y: int)
    requires
        map.at(0, 0).visited,
        forall|i: int, j: int|
            map.contains(i, j) && (#[trigger] map.at(i, j)).visited ==> enclosed(map, i, j),
        map.contains(x, y),
    ensures
        map.at(x, y).visited,
    decreases x + y,
{
    reveal(enclosed);
    if x > 0 {
        lemma_all_visited(map, x - 1, y);
        assert(enclosed(map, x - 1, y));
    } else if y > 0 {
        lemma_all_visited(map, x, y - 1);
        assert(enclosed(map, x, y - 1));
    }
}

/// Between two states of a map no door has been shut and no visit undone.
pub open spec fn grown(before: RoomMap, after: RoomMap) -> bool {
    &&& before.width == after.width
    &&& before.height == after.height
    &&& forall|x: int, y: int|
        before.contains(x, y) ==> {
            let was = before.at(x, y);
            let now = #[trigger] after.at(x, y);
            &&& was.visited ==> now.visited
            &&& was.north ==> now.north
            &&& was.east ==> now.east
            &&& was.south ==> now.south
            &&& was.west ==> now.west
        }
}

/// What holds while the maze is being laid out. `trace` is the way from the
/// first room to the room at hand; a visited room is on it or has no
/// unvisited neighbour left; every visited room but the first is joined to
/// one visited before it; and until the first step only the first room is
/// on the way and no room is visited.
pub open spec fn on_course(
    map: RoomMap,
    trace: Seq<(u32, u32)>,
    towards: Map<(int, int), (int, int)>,
    rank: Map<(int, int), nat>,
    clock: nat,
) -> bool {
    &&& forall|k: int|
        0 <= k < trace.len() ==> map.contains((#[trigger] trace[k]).0 as int, trace[k].1 as int)
    &&& forall|k: int|
        0 <= k < trace.len() ==> (#[trigger] trace[k]) == (0u32, 0u32) || map.at(
            trace[k].0 as int,
            trace[k].1 as int,
        ).visited
    &&& forall|x: int, y: int|
        map.contains(x, y) && (#[trigger] map.at(x, y)).visited ==> trace.contains(
            (x as u32, y as u32),
        ) || enclosed(map, x, y)
    &&& leads_home(map, towards, rank)
    &&& forall|x: int, y: int|
        map.contains(x, y) && ((#[trigger] map.at(x, y)).visited || (x, y) == (0int, 0int))
            ==> rank[(x, y)] < clock
    &&& map.at(0, 0).visited || (trace == seq![(0u32, 0u32)] && forall|x: int, y: int|
        map.contains(x, y) ==> !(#[trigger] map.at(x, y)).visited)
}

/// Two cells are next to each other.
pub open spec fn adjacent(a: (int, int), b: (int, int)) -> bool {
    ||| b == (a.0 - 1, a.1)
    ||| b == (a.0 + 1, a.1)
    ||| b == (a.0, a.1 - 1)
    ||| b == (a.0, a.1 + 1)
}

/// A room with doors added on the sides named, and visited.
pub open spec fn opened(room: Room, north: bool, east: bool, south: bool, west: bool) -> Room {
    Room {
        north: room.north || north,
        east: room.east || east,
        south: room.south || south,
        west: room.west || west,
        visited: true,
    }
}

/// The map after the way from `head` to its neighbour `next` has been
/// opened. The door from `head` towards `next` and the door back are put in.
/// Each of the four flags of `extra` puts in one more pair of doors: north
/// of `head` and south of `next`, south of `head` and north of `next`, east
/// of `head` and west of `next`, west of `head` and east of `next`.
pub open spec fn way_opened(
    before: RoomMap,
    after: RoomMap,
    head: (int, int),
    next: (int, int),
    extra: (bool, bool, bool, bool),
) -> bool {
    let north_south = head.1 > next.1 || extra.0;
    let south_north = next.1 > head.1 || extra.1;
    let east_west = next.0 > head.0 || extra.2;
    let west_east = head.0 > next.0 || extra.3;
    &&& after.width == before.width
    &&& after.height == before.height
    &&& after.at(head.0, head.1) == opened(
        before.at(head.0, head.1),
        north_south,
        east_west,
        south_north,
        west_east,
    )
    &&& after.at(next.0, next.1) == opened(
        before.at(next.0, next.1),
        south_north,
        west_east,
        north_south,
        east_west,
    )
    &&& forall|x: int, y: int|
        before.contains(x, y) && (x, y) != head && (x, y) != next ==> #[trigger] after.at(x, y)
            == before.at(x, y)
}

/// Opens the way from the room at `head` to its neighbour at `next`, with
/// the extra doors that the four flags name.
pub fn open_way_with(map: &mut RoomMap, head: (u32, u32), next: (u32, u32), extra: (bool, bool, bool, bool))
    requires
        old(map).well_formed(),
        old(map).contains(head.0 as int, head.1 as int),
        old(map).contains(next.0 as int, next.1 as int),
        adjacent((head.0 as int, head.1 as int), (next.0 as int, next.1 as int)),
    ensures
        final(map).well_formed(),
        way_opened(
            *old(map),
            *final(map),
            (head.0 as int, head.1 as int),
            (next.0 as int, next.1 as int),
            extra,
        ),
        grown(*old(map), *final(map)),
        final(map).at(head.0 as int, head.1 as int).visited,
        final(map).at(next.0 as int, next.1 as int).visited,
        joined(*final(map), (next.0 as int, next.1 as int), (head.0 as int, head.1 as int)),
        unvisited(final(map).rooms@) <= unvisited(old(map).rooms@),
        !old(map).at(next.0 as int, next.1 as int).visited ==> unvisited(final(map).rooms@)
            < unvisited(old(map).rooms@),
{
    let ghost before = *map;
    let head_room = map.get(head.0, head.1).unwrap();
    let next_room = map.get(next.0, next.1).unwrap();
    let north_south = head.1 > next.1 || extra.0;
    let south_north = next.1 > head.1 || extra.1;
    let east_west = next.0 > head.0 || extra.2;
    let west_east = head.0 > next.0 || extra.3;
    map.set(
        head.0,
        head.1,
        Room {
            north: head_room.north || north_south,
            east: head_room.east || east_west,
            south: head_room.south || south_north,
            west: head_room.west || west_east,
            visited: true,
        },
    );
    let ghost midway = *map;
    map.set(
        next.0,
        next.1,
        Room {
            north: next_room.north || south_north,
            east: next_room.east || west_east,
            south: next_room.south || north_south,
            west: next_room.west || east_west,
            visited: true,
        },
    );
    proof {
        let h = (head.0 as int, head.1 as int);
        let n = (next.0 as int, next.1 as int);
        lemma_unvisited_update(before.rooms@, h.1 * before.width + h.0, midway.at(h.0, h.1));
        lemma_unvisited_update(midway.rooms@, n.1 * before.width + n.0, map.at(n.0, n.1));
        assert(midway.at(n.0, n.1) == before.at(n.0, n.1));
        assert(map.at(h.0, h.1) == midway.at(h.0, h.1));
        assert forall|x: int, y: int| before.contains(x, y) implies {
            let was = before.at(x, y);
            let now = #[trigger] map.at(x, y);
            &&& was.visited ==> now.visited
            &&& was.north ==> now.north
            &&& was.east ==> now.east
            &&& was.south ==> now.south
            &&& was.west ==> now.west
            &&& (x, y) != h && (x, y) != n ==> now == was
        } by {
            if (x, y) != n {
                assert(map.at(x, y) == midway.at(x, y));
                if (x, y) != h {
                    assert(midway.at(x, y) == before.at(x, y));
                }
            }
        }
    }
}

/// Opens the way from the room at `head` to its neighbour at `next`: both
/// get a door towards the other and count as visited, and each of the four
/// extra pairs of doors is put in one time in five.
pub fn open_way(map: &mut RoomMap, head: (u32, u32), next: (u32, u32))
    requires
        old(map).well_formed(),
        old(map).contains(head.0 as int, head.1 as int),
        old(map).contains(next.0 as int, next.1 as int),
        adjacent((head.0 as int, head.1 as int), (next.0 as int, next.1 as int)),
    ensures
        final(map).well_formed(),
        exists|extra: (bool, bool, bool, bool)|
            #[trigger] way_opened(
                *old(map),
                *final(map),
                (head.0 as int, head.1 as int),
                (next.0 as int, next.1 as int),
                extra,
            ),
        grown(*old(map), *final(map)),
        final(map).at(head.0 as int, head.1 as int).visited,
        final(map).at(next.0 as int, next.1 as int).visited,
        joined(*final(map), (next.0 as int, next.1 as int), (head.0 as int, head.1 as int)),
        unvisited(final(map).rooms@) <= unvisited(old(map).rooms@),
        !old(map).at(next.0 as int, next.1 as int).visited ==> unvisited(final(map).rooms@)
            < unvisited(old(map).rooms@),
{
    let extra = (extra_door(), extra_door(), extra_door(), extra_door());
    open_way_with(map, head, next, extra);
}

/// Opening the way to an unvisited neighbour of the room at hand keeps the
/// laying-out on course, with the neighbour as the new room at hand.
pub proof fn lemma_step_forward(
    before: RoomMap,
    after: RoomMap,
    path: Seq<(u32, u32)>,
    next: (u32, u32),
    towards: Map<(int, int), (int, int)>,
    rank: Map<(int, int), nat>,
    clock: nat,
)
    requires
        on_course(before, path, towards, rank, clock),
        path.len() > 0,
        before.contains(next.0 as int, next.1 as int),
        !before.at(next.0 as int, next.1 as int).visited,
        grown(before, after),
        after.at(path.last().0 as int, path.last().1 as int).visited,
        after.at(next.0 as int, next.1 as int).visited,
        joined(
            after,
            (next.0 as int, next.1 as int),
            (path.last().0 as int, path.last().1 as int),
        ),
        forall|x: int, y: int|
            before.contains(x, y) && (x, y) != (path.last().0 as int, path.last().1 as int) && (x, y)
                != (next.0 as int, next.1 as int) ==> #[trigger] after.at(x, y) == before.at(x, y),
    ensures
        on_course(
            after,
            path.push(next),
            towards.insert(
                (next.0 as int, next.1 as int),
                (path.last().0 as int, path.last().1 as int),
            ),
            rank.insert((next.0 as int, next.1 as int), clock),
            clock + 1,
        ),
{
    reveal(leads_home);
    let head = path.last();
    let h = (head.0 as int, head.1 as int);
    let n = (next.0 as int, next.1 as int);
    let trace = path.push(next);
    let towards_next = towards.insert(n, h);
    let rank_next = rank.insert(n, clock);
    assert(path[path.len() - 1] == head);
    assert(before.contains(h.0, h.1));
    assert(before.at(h.0, h.1).visited || h == (0int, 0int));
    assert(n != (0int, 0int)) by {
        if !before.at(0, 0).visited {
            assert(path[0] == (0u32, 0u32));
        }
    }
    assert forall|k: int| 0 <= k < trace.len() implies after.contains(
        (#[trigger] trace[k]).0 as int,
        trace[k].1 as int,
    ) && (trace[k] == (0u32, 0u32) || after.at(trace[k].0 as int, trace[k].1 as int).visited) by {
        if k < path.len() {
            assert(trace[k] == path[k]);
            assert(before.contains(path[k].0 as int, path[k].1 as int));
            let now = after.at(path[k].0 as int, path[k].1 as int);
        }
    }
    assert forall|x: int, y: int|
        after.contains(x, y) && (#[trigger] after.at(x, y)).visited implies trace.contains(
        (x as u32, y as u32),
    ) || enclosed(after, x, y) by {
        if (x, y) == n {
            assert(trace[trace.len() - 1] == next);
        } else if (x, y) == h {
            assert(trace[path.len() - 1] == head);
        } else {
            assert(before.at(x, y).visited);
            if path.contains((x as u32, y as u32)) {
                let k = choose|k: int| 0 <= k < path.len() && path[k] == (x as u32, y as u32);
                assert(trace[k] == path[k]);
            } else {
                assert(enclosed(before, x, y));
                lemma_enclosed_stays(before, after, x, y);
            }
        }
    }
    assert forall|x: int, y: int|
        after.contains(x, y) && (x, y) != (0int, 0int) && (#[trigger] after.at(x, y)).visited implies {
        let to = towards_next[(x, y)];
        &&& after.contains(to.0, to.1)
        &&& after.at(to.0, to.1).visited
        &&& joined(after, (x, y), to)
        &&& rank_next[to] < rank_next[(x, y)]
    } by {
        if (x, y) == n {
            assert(rank[h] < clock);
        } else {
            assert(before.at(x, y).visited);
            let to = towards[(x, y)];
            assert(before.contains(to.0, to.1));
            assert(before.at(to.0, to.1).visited);
            assert(joined(before, (x, y), to));
            let now = after.at(to.0, to.1);
            let here_now = after.at(x, y);
            assert(rank[to] < rank[(x, y)]);
        }
    }
    assert forall|x: int, y: int|
        after.contains(x, y) && ((#[trigger] after.at(x, y)).visited || (x, y) == (0int, 0int))
            implies rank_next[(x, y)] < clock + 1 by {
        if (x, y) != n {
            if (x, y) != h {
                assert(after.at(x, y) == before.at(x, y));
            }
            assert(rank[(x, y)] < clock);
        }
    }
    assert(after.at(0, 0).visited) by {
        if h != (0int, 0int) {
            assert(before.at(0, 0).visited) by {
                if !before.at(0, 0).visited {
                    assert(path[0] == head);
                }
            }
            let now = after.at(0, 0);
        }
    }
}

/// Leaving a room that has no unvisited neighbour keeps the laying-out on
/// course, with the room before it on the way as the new room at hand.
pub proof fn lemma_step_back(
    map: RoomMap,
    path: Seq<(u32, u32)>,
    towards: Map<(int, int), (int, int)>,
    rank: Map<(int, int), nat>,
    clock: nat,
)
    requires
        on_course(map, path, towards, rank, clock),
        path.len() > 0,
        map.width > 1 || map.height > 1,
        map.width >= 1,
        map.height >= 1,
        open_neighbours(map, path.last().0 as int, path.last().1 as int).len() == 0,
    ensures
        on_course(map, path.drop_last(), towards, rank, clock),
{
    let head = path.last();
    let h = (head.0 as int, head.1 as int);
    let trace = path.drop_last();
    assert(path[path.len() - 1] == head);
    assert(map.contains(h.0, h.1));
    assert(enclosed(map, h.0, h.1)) by {
        reveal(enclosed);
        assert(candidate(map, h.0 - 1, h.1).len() == 0);
        assert(candidate(map, h.0, h.1 - 1).len() == 0);
        assert(candidate(map, h.0 + 1, h.1).len() == 0);
        assert(candidate(map, h.0, h.1 + 1).len() == 0);
    }
    assert(map.at(0, 0).visited) by {
        if !map.at(0, 0).visited {
            assert(path[0] == head);
            if map.width > 1 {
                assert(map.contains(1, 0));
                assert(!map.at(1, 0).visited);
                assert(candidate(map, 1, 0).len() == 1);
            } else {
                assert(map.contains(0, 1));
                assert(!map.at(0, 1).visited);
                assert(candidate(map, 0, 1).len() == 1);
            }
        }
    }
    assert forall|k: int| 0 <= k < trace.len() implies map.contains(
        (#[trigger] trace[k]).0 as int,
        trace[k].1 as int,
    ) && (trace[k] == (0u32, 0u32) || map.at(trace[k].0 as int, trace[k].1 as int).visited) by {
        assert(trace[k] == path[k]);
    }
    assert forall|x: int, y: int|
        map.contains(x, y) && (#[trigger] map.at(x, y)).visited implies trace.contains(
        (x as u32, y as u32),
    ) || enclosed(map, x, y) by {
        if (x, y) != h && path.contains((x as u32, y as u32)) {
            let k = choose|k: int| 0 <= k < path.len() && path[k] == (x as u32, y as u32);
            assert(k < path.len() - 1);
            assert(trace[k] == path[k]);
        }
    }
}

/// Lays out a maze on a grid of rooms: starting from the first room, doors
/// are opened from room to unvisited neighbour, each neighbour picked at
/// random, until every room has been visited; now and then an extra door
/// is put in. Every room can be reached from the first through doors that
/// are open on both sides.
pub fn gen_maze(size: (u32, u32)) -> (map: RoomMap)
    requires
        size.0 >= 1,
        size.1 >= 1,
        size.0 * size.1 <= usize::MAX,
    ensures
        map.well_formed(),
        map.width == size.0,
        map.height == size.1,
        size.0 > 1 || size.1 > 1 ==> forall|x: int, y: int|
            map.contains(x, y) ==> (#[trigger] map.at(x, y)).visited,
        exists|towards: Map<(int, int), (int, int)>, rank: Map<(int, int), nat>|
            leads_home(map, towards, rank),
{
    let mut map = RoomMap::sealed(size.0, size.1);
    if size.0 == 1 && size.1 == 1 {
        proof {
            reveal(leads_home);
            assert(leads_home(map, Map::empty(), Map::empty()));
        }
        return map;
    }
    let mut trace: Vec<(u32, u32)> = Vec::new();
    trace.push((0, 0));
    let ghost mut towards: Map<(int, int), (int, int)> = Map::empty();
    let ghost mut rank: Map<(int, int), nat> = Map::empty().insert((0int, 0int), 0nat);
    let ghost mut clock: nat = 1;
    proof {
        reveal(leads_home);
        assert(trace@ =~= seq![(0u32, 0u32)]);
        assert(on_course(map, trace@, towards, rank, clock));
    }
    while trace.len() > 0
        invariant
            map.well_formed(),
            map.width == size.0,
            map.height == size.1,
            size.0 >= 1,
            size.1 >= 1,
            size.0 > 1 || size.1 > 1,
            on_course(map, trace@, towards, rank, clock),
        decreases unvisited(map.rooms@), trace@.len(),
    {
        let ghost before = map;
        let ghost path = trace@;
        let head = trace[trace.len() - 1];
        let neighbors = unvisited_neighbors(&head, &map);
        let options = index_list(neighbors.len());
        match pick_one(&options) {
            Some(pick) => {
                assert(options@.contains(pick));
                assert(pick < neighbors@.len());
                proof {
                    lemma_open_neighbour(map, head.0 as int, head.1 as int, pick as int);
                }
                let next = neighbors[pick];
                trace.push(next);
                open_way(&mut map, head, next);
                proof {
                    let extra = choose|extra: (bool, bool, bool, bool)|
                        #[trigger] way_opened(
                            before,
                            map,
                            (head.0 as int, head.1 as int),
                            (next.0 as int, next.1 as int),
                            extra,
                        );
                    lemma_step_forward(before, map, path, next, towards, rank, clock);
                    towards = towards.insert(
                        (next.0 as int, next.1 as int),
                        (head.0 as int, head.1 as int),
                    );
                    rank = rank.insert((next.0 as int, next.1 as int), clock);
                    clock = clock + 1;
                }
            },
            None => {
                trace.pop();
                proof {
                    lemma_step_back(map, path, towards, rank, clock);
                }
            },
        }
    }
    proof {
        assert(trace@.len() == 0);
        assert forall|x: int, y: int| map.contains(x, y) implies (#[trigger] map.at(x, y)).visited by {
            assert forall|i: int, j: int|
                map.contains(i, j) && (#[trigger] map.at(i, j)).visited implies enclosed(map, i, j) by {
                assert(!trace@.contains((i as u32, j as u32)));
            }
            lemma_all_visited(map, x, y);
        }
    }
    map
}

/// Rooms stay enclosed while visits are only added.
pub proof fn lemma_enclosed_stays(before: RoomMap, after: RoomMap, x: int, y: int)
    requires
        grown(before, after),
        enclosed(before, x, y),
    ensures
        enclosed(after, x, y),
{
    reveal(enclosed);
    if after.contains(x - 1, y) {
        assert(after.at(x - 1, y).visited);
    }
    if after.contains(x, y - 1) {
        assert(after.at(x, y - 1).visited);
    }
    if after.contains(x + 1, y) {
        assert(after.at(x + 1, y).visited);
    }
    if after.contains(x, y + 1) {
        assert(after.at(x, y + 1).visited);
    }
}

} // verus!
