//! The dungeon level: rooms joined by doors, the tiles they are drawn
//! with, and movement across them.

use vstd::prelude::*;
use crate::play::Direction;

verus! {

/// Width of the screen in pixels.
pub const SCREEN_WIDTH: u32 = 632;

/// Height of the screen in pixels.
pub const SCREEN_HEIGHT: u32 = 368;

/// Side of a tile on screen, in pixels.
pub const TILE_SIZE: u32 = 64;

/// Side of a character on screen, in pixels.
pub const CHAR_SIZE: u32 = 56;

/// Side of a room, in tiles.
pub const ROOM_SIZE: u32 = 5;

/// Something that stands on a tile of the level.
#[derive(Clone, Copy, Debug)]
pub struct WorldEntity {
    pub location: (u32, u32),
}

/// A tile of the level. Only active tiles can be walked on.
#[derive(Clone, Copy, Debug)]
pub struct Tile {
    pub active: bool,
}

/// A room of the maze and the sides on which it has a door.
#[derive(Clone, Copy, Debug)]
pub struct Room {
    pub north: bool,
    pub east: bool,
    pub south: bool,
    pub west: bool,
    pub visited: bool,
}

/// Stairs down to a depth.
#[derive(Clone, Copy, Debug)]
pub struct Stair {
    pub depth: u32,
}

/// The part of the level that is on screen, in tiles.
#[derive(Clone, Copy, Debug)]
pub struct Camera {
    pub x_offset: u32,
    pub y_offset: u32,
    pub width: u32,
    pub height: u32,
}

/// The rooms of a level, row by row.
#[derive(Clone, Debug)]
pub struct RoomMap {
    pub width: u32,
    pub height: u32,
    pub rooms: Vec<Room>,
}

/// The tiles of a level, row by row.
#[derive(Clone, Debug)]
pub struct TileMap {
    pub width: u32,
    pub height: u32,
    pub tiles: Vec<Tile>,
}

/// A level of the dungeon.
#[derive(Debug)]
pub struct Level {
    pub depth: u32,
    pub tiles: TileMap,
    pub rooms: RoomMap,
    /// The room the player enters by.
    pub entrance: (u32, u32),
    /// The room with the stairs down.
    pub exit: (u32, u32),
}

impl Camera {
    /// A camera for a screen of the given size in pixels: as many tiles as
    /// fit, and one more on each side.
    pub fn new(screen_width: u32, screen_height: u32) -> (camera: Camera)
        ensures
            camera.x_offset == 0,
            camera.y_offset == 0,
            camera.width == screen_width / TILE_SIZE + 2,
            camera.height == screen_height / TILE_SIZE + 2,
    {
        Camera {
            x_offset: 0,
            y_offset: 0,
            width: screen_width / TILE_SIZE + 2,
            height: screen_height / TILE_SIZE + 2,
        }
    }

    /// Where the view starts along one axis so that `position` is in its
    /// middle, without leaving the level on the near side.
    pub open spec fn centred(position: u32, span: u32) -> u32 {
        if position >= span / 2 {
            (position - span / 2) as u32
        } else {
            0
        }
    }

    /// Centres the view on a location.
    pub fn follow(&mut self, location: (u32, u32))
        ensures
            final(self).x_offset == Self::centred(location.0, old(self).width),
            final(self).y_offset == Self::centred(location.1, old(self).height),
            final(self).width == old(self).width,
            final(self).height == old(self).height,
    {
        if location.0 >= self.width / 2 {
            self.x_offset = location.0 - self.width / 2;
        } else {
            self.x_offset = 0;
        }
        if location.1 >= self.height / 2 {
            self.y_offset = location.1 - self.height / 2;
        } else {
            self.y_offset = 0;
        }
    }
}

/// Keeps the party in view.
pub struct CameraSystem;

impl CameraSystem {
    /// Centres the camera on the party's location.
    pub fn run(&mut self, camera: &mut Camera, location: (u32, u32))
        ensures
            final(camera).x_offset == Camera::centred(location.0, old(camera).width),
            final(camera).y_offset == Camera::centred(location.1, old(camera).height),
            final(camera).width == old(camera).width,
            final(camera).height == old(camera).height,
    {
        camera.follow(location);
    }
}

/// The location one step away, where the coordinates reach that far.
pub open spec fn step_from(loc: (u32, u32), direction: Direction) -> Option<(u32, u32)> {
    match direction {
        Direction::Up => if loc.1 > 0 {
            Some((loc.0, (loc.1 - 1) as u32))
        } else {
            None
        },
        Direction::Down => if loc.1 < u32::MAX {
            Some((loc.0, (loc.1 + 1) as u32))
        } else {
            None
        },
        Direction::Left => if loc.0 > 0 {
            Some(((loc.0 - 1) as u32, loc.1))
        } else {
            None
        },
        Direction::Right => if loc.0 < u32::MAX {
            Some(((loc.0 + 1) as u32, loc.1))
        } else {
            None
        },
    }
}

/// The location one step away in a direction.
pub fn move_by(loc: (u32, u32), direction: &Direction) -> (next: Option<(u32, u32)>)
    ensures
        next == step_from(loc, *direction),
{
    match direction {
        Direction::Up => {
            if loc.1 > 0 {
                Some((loc.0, loc.1 - 1))
            } else {
                None
            }
        },
        Direction::Down => {
            if loc.1 < u32::MAX {
                Some((loc.0, loc.1 + 1))
            } else {
                None
            }
        },
        Direction::Left => {
            if loc.0 > 0 {
                Some((loc.0 - 1, loc.1))
            } else {
                None
            }
        },
        Direction::Right => {
            if loc.0 < u32::MAX {
                Some((loc.0 + 1, loc.1))
            } else {
                None
            }
        },
    }
}

impl RoomMap {
    /// The map holds a room for every cell of its grid.
    pub open spec fn well_formed(self) -> bool {
        self.rooms@.len() == self.width * self.height
    }

    /// Whether the map is well formed.
    pub fn check(&self) -> (ok: bool)
        ensures
            ok == self.well_formed(),
    {
        assert(self.width * self.height <= 0xffff_ffff * 0xffff_ffff) by (nonlinear_arith)
            requires
                self.width <= 0xffff_ffff,
                self.height <= 0xffff_ffff,
        ;
        self.rooms.len() as u128 == self.width as u128 * self.height as u128
    }

    pub open spec fn contains(self, x: int, y: int) -> bool {
        0 <= x < self.width && 0 <= y < self.height
    }

    /// The room at a cell of the grid.
    pub open spec fn at(self, x: int, y: int) -> Room {
        self.rooms@[y * self.width + x]
    }

    /// The room at a cell, if the grid has that cell.
    pub fn get(&self, x: u32, y: u32) -> (room: Option<Room>)
        requires
            self.well_formed(),
        ensures
            room == if self.contains(x as int, y as int) {
                Some(self.at(x as int, y as int))
            } else {
                None
            },
    {
        if x < self.width && y < self.height {
            let cells = self.rooms.len();
            proof {
                lemma_cell_in_grid(x as int, y as int, self.width as int, self.height as int);
            }
            Some(self.rooms[y as usize * self.width as usize + x as usize])
        } else {
            None
        }
    }
}

/// A cell of a grid has its place in the row-by-row order.
pub proof fn lemma_cell_in_grid(x: int, y: int, width: int, height: int)
    requires
        0 <= x < width,
        0 <= y < height,
    ensures
        0 <= y * width + x < width * height,
        0 <= y * width <= width * height - width,
{
    assert(y * width <= (height - 1) * width) by (nonlinear_arith)
        requires
            0 <= y <= height - 1,
            0 <= width,
    ;
    assert((height - 1) * width == width * height - width) by (nonlinear_arith);
    assert(0 <= y * width) by (nonlinear_arith)
        requires
            0 <= y,
            0 <= width,
    ;
}

/// Whether the level has ground at a place within a room, given the room's
/// doors: the inside of the room is ground, and so is a corridor three
/// tiles wide from the middle of the room to each side that has a door.
pub open spec fn ground_in_room(room: Room, room_size: int, x: int, y: int) -> bool {
    let middle = room_size / 2;
    let across = middle - 1 <= y <= middle + 1;
    let along = middle - 1 <= x <= middle + 1;
    ||| 1 <= x < room_size - 1 && 1 <= y < room_size - 1
    ||| room.west && x < middle && across
    ||| room.east && x >= middle && across
    ||| room.north && y < middle && along
    ||| room.south && y >= middle && along
}

/// Whether the level has ground at a tile.
pub open spec fn ground_at(rooms: RoomMap, room_size: int, x: int, y: int) -> bool {
    &&& rooms.contains(x / room_size, y / room_size)
    &&& ground_in_room(
        rooms.at(x / room_size, y / room_size),
        room_size,
        x % room_size,
        y % room_size,
    )
}

impl TileMap {
    /// The map holds a tile for every cell of its grid.
    pub open spec fn well_formed(self) -> bool {
        self.tiles@.len() == self.width * self.height
    }

    /// Whether the map is well formed.
    pub fn check(&self) -> (ok: bool)
        ensures
            ok == self.well_formed(),
    {
        assert(self.width * self.height <= 0xffff_ffff * 0xffff_ffff) by (nonlinear_arith)
            requires
                self.width <= 0xffff_ffff,
                self.height <= 0xffff_ffff,
        ;
        self.tiles.len() as u128 == self.width as u128 * self.height as u128
    }

    /// Whether there is an active tile at a location: the location lies on
    /// the grid, the map holds a tile for it, and that tile is active.
    pub open spec fn active_at(self, x: int, y: int) -> bool {
        &&& 0 <= x < self.width
        &&& 0 <= y < self.height
        &&& y * self.width + x < self.tiles@.len()
        &&& self.tiles@[y * self.width + x].active
    }

    /// Whether there is an active tile at a location.
    pub fn has_tile(&self, loc: (u32, u32)) -> (active: bool)
        ensures
            active == self.active_at(loc.0 as int, loc.1 as int),
    {
        if loc.0 < self.width && loc.1 < self.height {
            assert(loc.1 * self.width + loc.0 <= 0xffff_ffff * 0xffff_ffff + 0xffff_ffff)
                by (nonlinear_arith)
                requires
                    0 <= loc.1 <= 0xffff_ffff,
                    0 <= self.width <= 0xffff_ffff,
                    0 <= loc.0 <= 0xffff_ffff,
            ;
            let index: u64 = loc.1 as u64 * self.width as u64 + loc.0 as u64;
            if index < self.tiles.len() as u64 {
                self.tiles[index as usize].active
            } else {
                false
            }
        } else {
            false
        }
    }
}

/// Lays out the tiles for a map of rooms.
pub fn tiles_for_rooms(room_size: u32, rooms: &RoomMap) -> (tiles: TileMap)
    requires
        rooms.well_formed(),
        room_size >= 3,
        rooms.width * room_size <= u32::MAX,
        rooms.height * room_size <= u32::MAX,
        rooms.width * room_size * (rooms.height * room_size) <= usize::MAX,
    ensures
        tiles.well_formed(),
        tiles.width == rooms.width * room_size,
        tiles.height == rooms.height * room_size,
        forall|x: int, y: int|
            tiles.active_at(x, y) == (0 <= x && 0 <= y && #[trigger] ground_at(
                *rooms,
                room_size as int,
                x,
                y,
            )),
{
    let width: u32 = rooms.width * room_size;
    let height: u32 = rooms.height * room_size;
    assert(width * height == rooms.width * room_size * (rooms.height * room_size)) by (nonlinear_arith)
        requires
            width == rooms.width * room_size,
            height == rooms.height * room_size,
    ;
    let total: usize = width as usize * height as usize;
    let mut tiles: Vec<Tile> = Vec::new();
    let mut k: usize = 0;
    while k < total
        invariant
            k <= total,
            total == width * height,
            rooms.well_formed(),
            room_size >= 3,
            width == rooms.width * room_size,
            height == rooms.height * room_size,
            tiles@.len() == k,
            forall|i: int|
                0 <= i < k ==> (#[trigger] tiles@[i]).active == ground_at(
                    *rooms,
                    room_size as int,
                    i % (width as int),
                    i / (width as int),
                ),
        decreases total - k,
    {
        assert(width > 0) by (nonlinear_arith)
            requires
                k < width * height,
                0 <= k,
                0 <= width,
                0 <= height,
        ;
        let x: u32 = (k % width as usize) as u32;
        let y: usize = k / width as usize;
        proof {
            lemma_cell_of_index(k as int, width as int, height as int);
        }
        let y: u32 = y as u32;
        let active = match rooms.get(x / room_size, y / room_size) {
            Some(room) => ground_here(&room, room_size, x % room_size, y % room_size),
            None => false,
        };
        tiles.push(Tile { active });
        k = k + 1;
    }
    let map = TileMap { width, height, tiles };
    proof {
        assert forall|x: int, y: int|
            map.active_at(x, y) == (0 <= x && 0 <= y && #[trigger] ground_at(
                *rooms,
                room_size as int,
                x,
                y,
            )) by {
            if 0 <= x && 0 <= y {
                lemma_room_of_tile(x, y, rooms.width as int, rooms.height as int, room_size as int);
                if x < width && y < height {
                    lemma_cell_in_grid(x, y, width as int, height as int);
                    lemma_index_of_cell(x, y, width as int);
                    assert(map.tiles@[y * width + x].active == ground_at(
                        *rooms,
                        room_size as int,
                        x,
                        y,
                    ));
                }
            }
        }
    }
    map
}

/// A place in the row-by-row order is in the column and row that division
/// by the width gives.
pub proof fn lemma_cell_of_index(index: int, width: int, height: int)
    requires
        0 <= index < width * height,
        0 < width,
    ensures
        0 <= index % width < width,
        0 <= index / width < height,
{
    assert(0 < height && index < height * width) by (nonlinear_arith)
        requires
            0 <= index < width * height,
            0 < width,
    ;
    lemma_quotient_below(index, height, width);
    assert(0 <= index % width < width) by (nonlinear_arith)
        requires
            0 < width,
    ;
}

/// Division by the width gives back the column and row of a cell.
pub proof fn lemma_index_of_cell(x: int, y: int, width: int)
    requires
        0 <= x < width,
        0 <= y,
    ensures
        (y * width + x) % width == x,
        (y * width + x) / width == y,
{
    vstd::arithmetic::div_mod::lemma_fundamental_div_mod_converse(y * width + x, width, y, x);
}

/// A tile lies in a room of the map exactly when it lies on the map.
pub proof fn lemma_room_of_tile(x: int, y: int, width: int, height: int, room_size: int)
    requires
        0 <= x,
        0 <= y,
        0 <= width,
        0 <= height,
        room_size > 0,
    ensures
        (0 <= x / room_size < width) == (x < width * room_size),
        (0 <= y / room_size < height) == (y < height * room_size),
{
    lemma_quotient_below(x, width, room_size);
    lemma_quotient_below(y, height, room_size);
}

/// A quotient is below a bound exactly when the dividend is below the bound
/// times the divisor.
pub proof fn lemma_quotient_below(n: int, bound: int, divisor: int)
    requires
        0 <= n,
        0 <= bound,
        divisor > 0,
    ensures
        0 <= n / divisor,
        (n / divisor < bound) == (n < bound * divisor),
{
    let q = n / divisor;
    let r = n % divisor;
    assert(n == q * divisor + r && 0 <= r < divisor) by (nonlinear_arith)
        requires
            q == n / divisor,
            r == n % divisor,
            divisor > 0,
    ;
    assert(0 <= q) by (nonlinear_arith)
        requires
            n == q * divisor + r,
            0 <= n,
            0 <= r < divisor,
            divisor > 0,
    ;
    if q < bound {
        assert(q * divisor + r < bound * divisor) by (nonlinear_arith)
            requires
                q + 1 <= bound,
                0 <= r < divisor,
        ;
    } else {
        assert(q * divisor + r >= bound * divisor) by (nonlinear_arith)
            requires
                q >= bound,
                0 <= r,
                divisor > 0,
        ;
    }
}

/// Whether there is ground at a place within a room.
fn ground_here(room: &Room, room_size: u32, x: u32, y: u32) -> (ground: bool)
    requires
        room_size >= 3,
        x < room_size,
        y < room_size,
    ensures
        ground == ground_in_room(*room, room_size as int, x as int, y as int),
{
    let middle = room_size / 2;
    let across = middle - 1 <= y && y <= middle + 1;
    let along = middle - 1 <= x && x <= middle + 1;
    (1 <= x && x < room_size - 1 && 1 <= y && y < room_size - 1) || (room.west && x < middle
        && across) || (room.east && x >= middle && across) || (room.north && y < middle && along)
        || (room.south && y >= middle && along)
}

} // verus!
