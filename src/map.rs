use vstd::prelude::*;
use vstd::arithmetic::div_mod::{lemma_fundamental_div_mod, lemma_fundamental_div_mod_converse};

use crate::glyph::cp437_of;
use crate::random::{new_rng, rng_range, rng_roll_dice};
use crate::rect::{half_toward_zero, rects_intersect, Rect};

verus! {

pub const MAP_SIZE_X: i32 = 80;
pub const MAP_SIZE_Y: i32 = 50;

pub const MAX_ROOMS: i32 = 30;
pub const MIN_SIZE: i32 = 6;
pub const MAX_SIZE: i32 = 10;

#[derive(Clone, Copy, Debug, PartialEq, Eq, Structural)]
pub enum TileType {
    Wall,
    Floor,
}

/// The dungeon level: a row-major grid of tiles with the bookkeeping that the
/// systems keep per tile.
pub struct DungeonMap {
    pub tiles: Vec<TileType>,
    pub rooms: Vec<Rect>,
    pub width: i32,
    pub height: i32,
    pub revealed_tiles: Vec<bool>,
    pub visible_tiles: Vec<bool>,
    pub blocked: Vec<bool>,
    pub tile_content: Vec<Vec<u32>>,
}

/// Position of cell `(x, y)` in a row-major grid `width` cells wide.
pub open spec fn grid_index(width: int, x: int, y: int) -> int {
    y * width + x
}

/// Cell `(x, y)` lies on a grid of the given size.
pub open spec fn in_grid(width: int, height: int, x: int, y: int) -> bool {
    0 <= x < width && 0 <= y < height
}

/// A row-major index determines its column and row, and stays below the
/// number of cells.
pub proof fn lemma_grid_index(width: int, height: int, x: int, y: int)
    requires
        in_grid(width, height, x, y),
    ensures
        grid_index(width, x, y) % width == x,
        grid_index(width, x, y) / width == y,
        0 <= grid_index(width, x, y) < width * height,
{
    lemma_fundamental_div_mod_converse(grid_index(width, x, y), width, y, x);
    assert(0 <= y * width) by (nonlinear_arith)
        requires
            0 <= y,
            0 < width,
    ;
    assert(y * width + x < width * height) by (nonlinear_arith)
        requires
            0 <= x < width,
            0 <= y < height,
    ;
}

/// A cell index of a grid names the cell in its column and row.
pub proof fn lemma_cell_of_index(width: int, height: int, i: int)
    requires
        0 < width,
        0 <= i < width * height,
    ensures
        in_grid(width, height, i % width, i / width),
        i == grid_index(width, i % width, i / width),
{
    lemma_fundamental_div_mod(i, width);
    assert(width * (i / width) == (i / width) * width) by (nonlinear_arith);
    assert(i / width < height) by (nonlinear_arith)
        requires
            0 < width,
            0 <= i < width * height,
            i == width * (i / width) + i % width,
            0 <= i % width < width,
    ;
    assert(0 <= i / width) by (nonlinear_arith)
        requires
            0 < width,
            0 <= i,
            i == width * (i / width) + i % width,
            i % width < width,
    ;
}

/// Cell `(x, y)` lies inside a room: the room's first row and column are its
/// walls, so the floor runs from one past `x1` up to `x2`, and likewise in `y`.
pub open spec fn room_covers(room: Rect, x: int, y: int) -> bool {
    room.x1 < x <= room.x2 && room.y1 < y <= room.y2
}

pub open spec fn min_int(a: int, b: int) -> int {
    if a <= b { a } else { b }
}

pub open spec fn max_int(a: int, b: int) -> int {
    if a >= b { a } else { b }
}

/// Column of a room's centre.
pub open spec fn center_x(room: Rect) -> int {
    half_toward_zero(room.x1 + room.x2)
}

/// Row of a room's centre.
pub open spec fn center_y(room: Rect) -> int {
    half_toward_zero(room.y1 + room.y2)
}

/// Cell `(x, y)` lies on the L-shaped corridor between the centres of `prev`
/// and `next`: along the row of `prev` and then the column of `next` when
/// `along_prev_row`, else along the row of `next` and the column of `prev`.
pub open spec fn on_corridor(prev: Rect, next: Rect, along_prev_row: bool, x: int, y: int) -> bool {
    let px = center_x(prev);
    let py = center_y(prev);
    let nx = center_x(next);
    let ny = center_y(next);
    if along_prev_row {
        (y == py && min_int(px, nx) <= x <= max_int(px, nx)) || (x == nx && min_int(py, ny) <= y
            <= max_int(py, ny))
    } else {
        (y == ny && min_int(px, nx) <= x <= max_int(px, nx)) || (x == px && min_int(py, ny) <= y
            <= max_int(py, ny))
    }
}

impl DungeonMap {
    /// Number of cells.
    pub open spec fn size(&self) -> int {
        self.width * self.height
    }

    pub open spec fn wf(&self) -> bool {
        &&& 0 < self.width
        &&& 0 < self.height
        &&& self.width * self.height <= i32::MAX
        &&& self.tiles@.len() == self.size()
        &&& self.revealed_tiles@.len() == self.size()
        &&& self.visible_tiles@.len() == self.size()
        &&& self.blocked@.len() == self.size()
        &&& self.tile_content@.len() == self.size()
    }

    pub open spec fn in_bounds(&self, x: int, y: int) -> bool {
        in_grid(self.width as int, self.height as int, x, y)
    }

    /// Column of cell index `i`.
    pub open spec fn col(&self, i: int) -> int {
        i % (self.width as int)
    }

    /// Row of cell index `i`.
    pub open spec fn row(&self, i: int) -> int {
        i / (self.width as int)
    }

    pub open spec fn spec_index(&self, x: int, y: int) -> int {
        grid_index(self.width as int, x, y)
    }

    pub fn xy_index(&self, x: i32, y: i32) -> (r: usize)
        requires
            self.in_bounds(x as int, y as int),
            self.width * self.height <= i32::MAX,
        ensures
            r == self.spec_index(x as int, y as int),
            r < self.size(),
    {
        proof {
            lemma_grid_index(self.width as int, self.height as int, x as int, y as int);
            assert(0 <= (y as int) * (self.width as int)) by (nonlinear_arith)
                requires
                    0 <= y,
                    0 < self.width,
            ;
        }
        (y as usize * self.width as usize) + x as usize
    }

    /// A wall blocks sight; a floor does not.
    pub fn is_opaque(&self, index: usize) -> (r: bool)
        requires
            index < self.tiles@.len(),
        ensures
            r == (self.tiles@[index as int] == TileType::Wall),
    {
        self.tiles[index] == TileType::Wall
    }

    /// Everything but the tiles is as in `other`.
    pub open spec fn same_but_tiles(&self, other: &DungeonMap) -> bool {
        &&& self.rooms@ == other.rooms@
        &&& self.width == other.width
        &&& self.height == other.height
        &&& self.revealed_tiles@ == other.revealed_tiles@
        &&& self.visible_tiles@ == other.visible_tiles@
        &&& self.blocked@ == other.blocked@
        &&& self.tile_content@ == other.tile_content@
    }

    fn set_floor(&mut self, index: usize)
        requires
            index < old(self).tiles@.len(),
        ensures
            final(self).same_but_tiles(old(self)),
            final(self).tiles@ == old(self).tiles@.update(index as int, TileType::Floor),
    {
        self.tiles.set(index, TileType::Floor);
    }

    /// Turns the floor of `room` into floor tiles.
    fn apply_room_to_map(&mut self, room: &Rect)
        requires
            old(self).wf(),
            0 <= room.x1 <= room.x2 < old(self).width,
            0 <= room.y1 <= room.y2 < old(self).height,
        ensures
            final(self).wf(),
            final(self).same_but_tiles(old(self)),
            forall|i: int|
                0 <= i < old(self).size() ==> #[trigger] final(self).tiles@[i] == if room_covers(
                    *room,
                    old(self).col(i),
                    old(self).row(i),
                ) {
                    TileType::Floor
                } else {
                    old(self).tiles@[i]
                },
    {
        let ghost start = *self;
        let ghost w = self.width as int;
        let ghost h = self.height as int;
        let mut y: i32 = room.y1 + 1;
        while y <= room.y2
            invariant
                self.wf(),
                self.same_but_tiles(&start),
                start.wf(),
                w == start.width,
                h == start.height,
                0 <= room.x1 <= room.x2 < w,
                0 <= room.y1,
                room.y2 < h,
                room.y1 < y,
                y <= room.y2 + 1 || y == room.y1 + 1,
                forall|i: int|
                    0 <= i < w * h ==> #[trigger] self.tiles@[i] == if room.x1 < i % w <= room.x2
                        && room.y1 < i / w < y {
                        TileType::Floor
                    } else {
                        start.tiles@[i]
                    },
            decreases room.y2 + 1 - y,
        {
            let mut x: i32 = room.x1 + 1;
            while x <= room.x2
                invariant
                    self.wf(),
                    self.same_but_tiles(&start),
                    start.wf(),
                    w == start.width,
                    h == start.height,
                    0 <= room.x1,
                    room.x2 < w,
                    0 <= room.y1,
                    room.y2 < h,
                    room.y1 < y <= room.y2,
                    room.x1 < x,
                    x <= room.x2 + 1 || x == room.x1 + 1,
                    forall|i: int|
                        0 <= i < w * h ==> #[trigger] self.tiles@[i] == if (room.x1 < i % w
                            <= room.x2 && room.y1 < i / w < y) || (i / w == y && room.x1 < i % w
                            < x) {
                            TileType::Floor
                        } else {
                            start.tiles@[i]
                        },
                decreases room.x2 + 1 - x,
            {
                let index = self.xy_index(x, y);
                let ghost before = self.tiles@;
                self.set_floor(index);
                proof {
                    lemma_grid_index(w, h, x as int, y as int);
                    assert forall|i: int| 0 <= i < w * h implies #[trigger] self.tiles@[i] == if (
                    room.x1 < i % w <= room.x2 && room.y1 < i / w < y) || (i / w == y && room.x1
                        < i % w < x + 1) {
                        TileType::Floor
                    } else {
                        start.tiles@[i]
                    } by {
                        lemma_cell_of_index(w, h, i);
                    }
                }
                x = x + 1;
            }
            y = y + 1;
        }
    }

    /// Floors row `y` from column `x1` to column `x2`, either way round; the
    /// cell at index 0 is left as it is. Both ends lie on the map: a tunnel
    /// runs between the centres of two rooms, and a cell past the end of a
    /// row would name a cell of the next row.
    fn apply_horizontal_tunnel(&mut self, x1: i32, x2: i32, y: i32)
        requires
            old(self).wf(),
            old(self).in_bounds(x1 as int, y as int),
            old(self).in_bounds(x2 as int, y as int),
        ensures
            final(self).wf(),
            final(self).same_but_tiles(old(self)),
            forall|i: int|
                0 <= i < old(self).size() ==> #[trigger] final(self).tiles@[i] == if 0 < i
                    && old(self).row(i) == y && min_int(x1 as int, x2 as int) <= old(self).col(i)
                    <= max_int(x1 as int, x2 as int) {
                    TileType::Floor
                } else {
                    old(self).tiles@[i]
                },
    {
        let ghost start = *self;
        let ghost w = self.width as int;
        let ghost h = self.height as int;
        let lo = if x1 <= x2 { x1 } else { x2 };
        let hi = if x1 >= x2 { x1 } else { x2 };
        let mut x: i32 = lo;
        while x <= hi
            invariant
                self.wf(),
                self.same_but_tiles(&start),
                start.wf(),
                w == start.width,
                h == start.height,
                0 <= lo <= hi < w,
                0 <= y < h,
                lo as int == min_int(x1 as int, x2 as int),
                hi as int == max_int(x1 as int, x2 as int),
                lo <= x <= hi + 1,
                forall|i: int|
                    0 <= i < w * h ==> #[trigger] self.tiles@[i] == if 0 < i && i / w == y && lo
                        <= i % w < x {
                        TileType::Floor
                    } else {
                        start.tiles@[i]
                    },
            decreases hi + 1 - x,
        {
            let index = self.xy_index(x, y);
            proof {
                lemma_grid_index(w, h, x as int, y as int);
            }
            if index > 0 && index < (self.width * self.height) as usize {
                self.set_floor(index);
            }
            proof {
                assert forall|i: int| 0 <= i < w * h implies #[trigger] self.tiles@[i] == if 0 < i
                    && i / w == y && lo <= i % w < x + 1 {
                    TileType::Floor
                } else {
                    start.tiles@[i]
                } by {
                    lemma_cell_of_index(w, h, i);
                }
            }
            x = x + 1;
        }
    }

    /// Floors column `x` from row `y1` to row `y2`, either way round; the
    /// cell at index 0 is left as it is. Both ends lie on the map: a tunnel
    /// runs between the centres of two rooms.
    fn apply_vertical_tunnel(&mut self, y1: i32, y2: i32, x: i32)
        requires
            old(self).wf(),
            old(self).in_bounds(x as int, y1 as int),
            old(self).in_bounds(x as int, y2 as int),
        ensures
            final(self).wf(),
            final(self).same_but_tiles(old(self)),
            forall|i: int|
                0 <= i < old(self).size() ==> #[trigger] final(self).tiles@[i] == if 0 < i
                    && old(self).col(i) == x && min_int(y1 as int, y2 as int) <= old(self).row(i)
                    <= max_int(y1 as int, y2 as int) {
                    TileType::Floor
                } else {
                    old(self).tiles@[i]
                },
    {
        let ghost start = *self;
        let ghost w = self.width as int;
        let ghost h = self.height as int;
        let lo = if y1 <= y2 { y1 } else { y2 };
        let hi = if y1 >= y2 { y1 } else { y2 };
        let mut y: i32 = lo;
        while y <= hi
            invariant
                self.wf(),
                self.same_but_tiles(&start),
                start.wf(),
                w == start.width,
                h == start.height,
                0 <= lo <= hi < h,
                0 <= x < w,
                lo as int == min_int(y1 as int, y2 as int),
                hi as int == max_int(y1 as int, y2 as int),
                lo <= y <= hi + 1,
                forall|i: int|
                    0 <= i < w * h ==> #[trigger] self.tiles@[i] == if 0 < i && i % w == x && lo
                        <= i / w < y {
                        TileType::Floor
                    } else {
                        start.tiles@[i]
                    },
            decreases hi + 1 - y,
        {
            let index = self.xy_index(x, y);
            proof {
                lemma_grid_index(w, h, x as int, y as int);
            }
            if index > 0 && index < (self.width * self.height) as usize {
                self.set_floor(index);
            }
            proof {
                assert forall|i: int| 0 <= i < w * h implies #[trigger] self.tiles@[i] == if 0 < i
                    && i % w == x && lo <= i / w < y + 1 {
                    TileType::Floor
                } else {
                    start.tiles@[i]
                } by {
                    lemma_cell_of_index(w, h, i);
                }
            }
            y = y + 1;
        }
    }

    /// Cell index `i` lies on the outer ring of the grid.
    pub open spec fn on_border(&self, i: int) -> bool {
        self.col(i) == 0 || self.row(i) == 0 || self.col(i) == self.width - 1 || self.row(i)
            == self.height - 1
    }

    /// `room` has a side of `MIN_SIZE` to `MAX_SIZE - 1` cells each way and
    /// stays clear of the outer ring.
    pub open spec fn room_fits(&self, room: Rect) -> bool {
        &&& 0 <= room.x1
        &&& room.x1 + MIN_SIZE <= room.x2 < room.x1 + MAX_SIZE
        &&& room.x2 <= self.width - 2
        &&& 0 <= room.y1
        &&& room.y1 + MIN_SIZE <= room.y2 < room.y1 + MAX_SIZE
        &&& room.y2 <= self.height - 2
    }

    pub open spec fn rooms_fit(&self) -> bool {
        forall|k: int| 0 <= k < self.rooms@.len() ==> self.room_fits(#[trigger] self.rooms@[k])
    }

    /// No two rooms overlap or touch.
    pub open spec fn rooms_apart(&self) -> bool {
        forall|a: int, b: int|
            0 <= a < self.rooms@.len() && 0 <= b < self.rooms@.len() && a != b ==> !rects_intersect(
                #[trigger] self.rooms@[a],
                #[trigger] self.rooms@[b],
            )
    }

    /// Every cell inside a room is floor.
    pub open spec fn rooms_floored(&self) -> bool {
        forall|k: int, i: int|
            0 <= k < self.rooms@.len() && 0 <= i < self.size() && room_covers(
                #[trigger] self.rooms@[k],
                self.col(i),
                self.row(i),
            ) ==> #[trigger] self.tiles@[i] == TileType::Floor
    }

    /// The outer ring is wall all round.
    pub open spec fn walled_in(&self) -> bool {
        forall|i: int| 0 <= i < self.size() && self.on_border(i) ==> #[trigger] self.tiles@[i]
            == TileType::Wall
    }

    /// No cell has been seen, none is blocked and none holds an entity.
    pub open spec fn unexplored(&self) -> bool {
        forall|i: int|
            0 <= i < self.size() ==> !#[trigger] self.revealed_tiles@[i] && !self.visible_tiles@[i]
                && !self.blocked@[i] && self.tile_content@[i]@.len() == 0
    }

    /// Every cell of one corridor between `prev` and `next` is floor.
    pub open spec fn corridor_floored(&self, prev: Rect, next: Rect, along_prev_row: bool) -> bool {
        forall|i: int|
            0 <= i < self.size() && on_corridor(prev, next, along_prev_row, self.col(i), self.row(i))
                ==> #[trigger] self.tiles@[i] == TileType::Floor
    }

    /// Each room is joined to the room before it by a corridor of floor.
    pub open spec fn rooms_linked(&self) -> bool {
        forall|k: int|
            1 <= k < self.rooms@.len() ==> self.corridor_floored(
                self.rooms@[k - 1],
                #[trigger] self.rooms@[k],
                true,
            ) || self.corridor_floored(self.rooms@[k - 1], self.rooms@[k], false)
    }

    /// Cell index `i` lies in room `k` or on either corridor from room
    /// `k - 1` to room `k`.
    pub open spec fn carved_by(&self, k: int, i: int) -> bool {
        ||| room_covers(self.rooms@[k], self.col(i), self.row(i))
        ||| 1 <= k && on_corridor(self.rooms@[k - 1], self.rooms@[k], true, self.col(i), self.row(i))
        ||| 1 <= k && on_corridor(self.rooms@[k - 1], self.rooms@[k], false, self.col(i), self.row(i))
    }

    /// Every floor cell lies in a room or on a corridor between consecutive
    /// rooms.
    pub open spec fn floor_explained(&self) -> bool {
        forall|i: int|
            0 <= i < self.size() && #[trigger] self.tiles@[i] == TileType::Floor ==> exists|k: int|
                0 <= k < self.rooms@.len() && self.carved_by(k, i)
    }

    /// Digs the corridor from the centre of `prev` to the centre of `next`.
    fn connect_rooms(&mut self, prev: &Rect, next: &Rect, along_prev_row: bool)
        requires
            old(self).wf(),
            old(self).room_fits(*prev),
            old(self).room_fits(*next),
            prev.center_fits(),
            next.center_fits(),
        ensures
            final(self).wf(),
            final(self).same_but_tiles(old(self)),
            forall|i: int|
                0 <= i < old(self).size() ==> #[trigger] final(self).tiles@[i] == if on_corridor(
                    *prev,
                    *next,
                    along_prev_row,
                    old(self).col(i),
                    old(self).row(i),
                ) {
                    TileType::Floor
                } else {
                    old(self).tiles@[i]
                },
    {
        let ghost start = *self;
        let ghost w = self.width as int;
        let ghost h = self.height as int;
        let (new_x, new_y) = next.center();
        let (prev_x, prev_y) = prev.center();
        if along_prev_row {
            self.apply_horizontal_tunnel(prev_x, new_x, prev_y);
            self.apply_vertical_tunnel(prev_y, new_y, new_x);
        } else {
            self.apply_horizontal_tunnel(prev_x, new_x, new_y);
            self.apply_vertical_tunnel(prev_y, new_y, prev_x);
        }
        proof {
            assert forall|i: int| 0 <= i < w * h implies #[trigger] self.tiles@[i] == if on_corridor(
                *prev,
                *next,
                along_prev_row,
                i % w,
                i / w,
            ) {
                TileType::Floor
            } else {
                start.tiles@[i]
            } by {
                lemma_cell_of_index(w, h, i);
                if i == 0 {
                    assert(i % w == 0 && i / w == 0);
                }
            }
        }
    }

    /// A grid of walls with no rooms, nothing seen and nothing on it.
    pub fn new_blank(width: i32, height: i32) -> (r: DungeonMap)
        requires
            0 < width,
            0 < height,
            width * height <= i32::MAX,
        ensures
            r.wf(),
            r.width == width,
            r.height == height,
            r.rooms@.len() == 0,
            forall|i: int| 0 <= i < r.size() ==> #[trigger] r.tiles@[i] == TileType::Wall,
            r.unexplored(),
    {
        let n = (width * height) as usize;
        let mut tiles: Vec<TileType> = Vec::new();
        let mut revealed_tiles: Vec<bool> = Vec::new();
        let mut visible_tiles: Vec<bool> = Vec::new();
        let mut blocked: Vec<bool> = Vec::new();
        let mut tile_content: Vec<Vec<u32>> = Vec::new();
        let mut i: usize = 0;
        while i < n
            invariant
                i <= n,
                tiles@.len() == i,
                revealed_tiles@.len() == i,
                visible_tiles@.len() == i,
                blocked@.len() == i,
                tile_content@.len() == i,
                forall|j: int| 0 <= j < i ==> #[trigger] tiles@[j] == TileType::Wall,
                forall|j: int| 0 <= j < i ==> !#[trigger] revealed_tiles@[j],
                forall|j: int| 0 <= j < i ==> !#[trigger] visible_tiles@[j],
                forall|j: int| 0 <= j < i ==> !#[trigger] blocked@[j],
                forall|j: int| 0 <= j < i ==> (#[trigger] tile_content@[j])@.len() == 0,
            decreases n - i,
        {
            tiles.push(TileType::Wall);
            revealed_tiles.push(false);
            visible_tiles.push(false);
            blocked.push(false);
            let empty: Vec<u32> = Vec::new();
            tile_content.push(empty);
            assert(tile_content@[i as int]@.len() == 0);
            i = i + 1;
        }
        DungeonMap {
            tiles,
            rooms: Vec::new(),
            width,
            height,
            revealed_tiles,
            visible_tiles,
            blocked,
            tile_content,
        }
    }

    /// Builds a level of up to `MAX_ROOMS` rooms placed at random, dropping
    /// each one that would overlap or touch a room already placed, and joins
    /// each new room to the one before it by an L-shaped corridor.
    pub fn new_map_rooms_and_corridors() -> (r: DungeonMap)
        ensures
            r.wf(),
            r.width == MAP_SIZE_X,
            r.height == MAP_SIZE_Y,
            1 <= r.rooms@.len() <= MAX_ROOMS,
            r.rooms_fit(),
            r.rooms_apart(),
            r.rooms_floored(),
            r.rooms_linked(),
            r.floor_explained(),
            r.walled_in(),
            r.unexplored(),
    {
        let mut map = DungeonMap::new_blank(MAP_SIZE_X, MAP_SIZE_Y);
        let mut rng = new_rng();
        let mut n: i32 = 0;
        while n < MAX_ROOMS
            invariant
                map.wf(),
                map.width == MAP_SIZE_X,
                map.height == MAP_SIZE_Y,
                0 <= n <= MAX_ROOMS,
                map.rooms@.len() <= n,
                n > 0 ==> map.rooms@.len() > 0,
                map.rooms_fit(),
                map.rooms_apart(),
                map.rooms_floored(),
                map.rooms_linked(),
                map.floor_explained(),
                map.walled_in(),
                map.unexplored(),
            decreases MAX_ROOMS - n,
        {
            let ghost start = map;
            let width = rng_range(&mut rng, MIN_SIZE, MAX_SIZE);
            let height = rng_range(&mut rng, MIN_SIZE, MAX_SIZE);
            let x = rng_roll_dice(&mut rng, 1, map.width - width - 1) - 1;
            let y = rng_roll_dice(&mut rng, 1, map.height - height - 1) - 1;
            let new_room = Rect::new(x, y, width, height);
            let mut ok = true;
            let mut j: usize = 0;
            while j < map.rooms.len()
                invariant
                    j <= map.rooms@.len(),
                    ok == forall|k: int| 0 <= k < j ==> !rects_intersect(new_room, #[trigger] map.rooms@[k]),
                decreases map.rooms@.len() - j,
            {
                if new_room.intersect(&map.rooms[j]) {
                    ok = false;
                }
                j = j + 1;
            }
            if ok {
                let ghost before = map;
                map.apply_room_to_map(&new_room);
                let ghost roomed = map;
                let mut side = false;
                if !map.rooms.is_empty() {
                    let prev = map.rooms[map.rooms.len() - 1];
                    proof {
                        assert(map.room_fits(map.rooms@[map.rooms@.len() - 1]));
                    }
                    side = rng_range(&mut rng, 0, 2) == 1;
                    map.connect_rooms(&prev, &new_room, side);
                }
                let ghost placed = map;
                map.rooms.push(new_room);
                proof {
                    lemma_room_placed(before, roomed, placed, map, new_room, side);
                }
            }
            assert(map.revealed_tiles@ == start.revealed_tiles@);
            assert(map.visible_tiles@ == start.visible_tiles@);
            assert(map.blocked@ == start.blocked@);
            assert(map.tile_content@ == start.tile_content@);
            assert forall|i: int| 0 <= i < map.size() implies !#[trigger] map.revealed_tiles@[i]
                && !map.visible_tiles@[i] && !map.blocked@[i] && map.tile_content@[i]@.len()
                == 0 by {
                assert(!start.revealed_tiles@[i]);
            }
            n = n + 1;
        }
        map
    }

    /// Whether an entity standing on `(x, y)` is drawn: only on a cell in
    /// view.
    pub fn is_visible_at(&self, x: i32, y: i32) -> (r: bool)
        requires
            self.wf(),
            self.in_bounds(x as int, y as int),
        ensures
            r == self.visible_tiles@[self.spec_index(x as int, y as int)],
    {
        let index = self.xy_index(x, y);
        self.visible_tiles[index]
    }
}

/// The character a tile is drawn with.
pub open spec fn tile_char(tile: TileType) -> char {
    match tile {
        TileType::Floor => '.',
        TileType::Wall => '#',
    }
}

/// The code-page-437 glyph of a tile.
pub fn tile_glyph(tile: TileType) -> (r: u16)
    ensures
        r as u32 == tile_char(tile) as u32,
{
    match tile {
        TileType::Floor => cp437_of('.'),
        TileType::Wall => cp437_of('#'),
    }
}

/// How one cell of the map is drawn: where, with which glyph, for which
/// tile, and whether it is greyed out because it is out of view.
#[derive(Clone, Copy, Debug, PartialEq, Eq, Structural)]
pub struct TileLook {
    pub x: i32,
    pub y: i32,
    pub glyph: u16,
    pub tile: TileType,
    pub greyed: bool,
}

/// How cell `index` is drawn: not at all until it has been revealed, and
/// greyed out while it is out of view.
pub fn tile_look(map: &DungeonMap, index: usize) -> (r: Option<TileLook>)
    requires
        map.wf(),
        index < map.size(),
    ensures
        r.is_some() == map.revealed_tiles@[index as int],
        r.is_some() ==> {
            let look = r.unwrap();
            &&& look.x == map.col(index as int)
            &&& look.y == map.row(index as int)
            &&& look.tile == map.tiles@[index as int]
            &&& look.glyph as u32 == tile_char(map.tiles@[index as int]) as u32
            &&& look.greyed == !map.visible_tiles@[index as int]
        },
{
    if !map.revealed_tiles[index] {
        return None;
    }
    proof {
        lemma_cell_of_index(map.width as int, map.height as int, index as int);
    }
    let x = (index % (map.width as usize)) as i32;
    let y = (index / (map.width as usize)) as i32;
    let tile = map.tiles[index];
    Some(TileLook { x, y, glyph: tile_glyph(tile), tile, greyed: !map.visible_tiles[index] })
}

/// What placing one room keeps of a level under construction: `before` is
/// the level, `roomed` has the room's floor dug, `placed` also has the
/// corridor to the last room, and `after` lists the new room.
proof fn lemma_room_placed(
    before: DungeonMap,
    roomed: DungeonMap,
    placed: DungeonMap,
    after: DungeonMap,
    room: Rect,
    side: bool,
)
    requires
        before.wf(),
        before.width == MAP_SIZE_X,
        before.height == MAP_SIZE_Y,
        before.rooms_fit(),
        before.rooms_apart(),
        before.rooms_floored(),
        before.rooms_linked(),
        before.floor_explained(),
        before.walled_in(),
        before.room_fits(room),
        forall|k: int| 0 <= k < before.rooms@.len() ==> !rects_intersect(room, #[trigger] before.rooms@[k]),
        roomed.wf(),
        roomed.same_but_tiles(&before),
        forall|i: int|
            0 <= i < before.size() ==> #[trigger] roomed.tiles@[i] == if room_covers(
                room,
                before.col(i),
                before.row(i),
            ) {
                TileType::Floor
            } else {
                before.tiles@[i]
            },
        placed.wf(),
        placed.same_but_tiles(&before),
        before.rooms@.len() == 0 ==> placed.tiles@ == roomed.tiles@,
        before.rooms@.len() > 0 ==> forall|i: int|
                0 <= i < before.size() ==> #[trigger] placed.tiles@[i] == if on_corridor(
                    before.rooms@[before.rooms@.len() - 1],
                    room,
                    side,
                    before.col(i),
                    before.row(i),
                ) {
                    TileType::Floor
                } else {
                    roomed.tiles@[i]
                },
        after.tiles@ == placed.tiles@,
        after.rooms@ == before.rooms@.push(room),
        after.width == before.width,
        after.height == before.height,
        after.tiles@.len() == before.tiles@.len(),
    ensures
        after.rooms_fit(),
        after.rooms_apart(),
        after.rooms_floored(),
        after.rooms_linked(),
        after.floor_explained(),
        after.walled_in(),
{
    let n = before.rooms@.len() as int;
    let w = before.width as int;
    let h = before.height as int;
    // Floor stays floor all the way.
    assert forall|i: int| 0 <= i < w * h && before.tiles@[i] == TileType::Floor implies #[trigger] after.tiles@[i]
        == TileType::Floor by {
        assert(roomed.tiles@[i] == TileType::Floor);
        if n > 0 {
            assert(placed.tiles@[i] == TileType::Floor);
        }
    }
    assert forall|i: int| 0 <= i < w * h && roomed.tiles@[i] == TileType::Floor implies #[trigger] after.tiles@[i]
        == TileType::Floor by {
        if n > 0 {
            assert(placed.tiles@[i] == TileType::Floor);
        }
    }
    assert forall|k: int| 0 <= k < after.rooms@.len() implies after.room_fits(#[trigger] after.rooms@[k]) by {
        if k < n {
            assert(before.rooms@[k] == after.rooms@[k]);
        }
    }
    assert forall|a: int, b: int|
        0 <= a < after.rooms@.len() && 0 <= b < after.rooms@.len() && a != b implies !rects_intersect(
        #[trigger] after.rooms@[a],
        #[trigger] after.rooms@[b],
    ) by {
        if a < n && b < n {
            assert(before.rooms@[a] == after.rooms@[a]);
            assert(before.rooms@[b] == after.rooms@[b]);
        } else if a < n {
            assert(!rects_intersect(room, before.rooms@[a]));
        } else {
            assert(!rects_intersect(room, before.rooms@[b]));
        }
    }
    assert forall|k: int, i: int|
        0 <= k < after.rooms@.len() && 0 <= i < after.size() && room_covers(
            #[trigger] after.rooms@[k],
            after.col(i),
            after.row(i),
        ) implies #[trigger] after.tiles@[i] == TileType::Floor by {
        if k < n {
            assert(before.rooms@[k] == after.rooms@[k]);
            assert(before.tiles@[i] == TileType::Floor);
        } else {
            assert(roomed.tiles@[i] == TileType::Floor);
        }
    }
    assert forall|i: int| 0 <= i < after.size() && after.on_border(i) implies #[trigger] after.tiles@[i]
        == TileType::Wall by {
        assert(before.tiles@[i] == TileType::Wall);
        assert(roomed.tiles@[i] == TileType::Wall);
        if n > 0 {
            assert(before.room_fits(before.rooms@[n - 1]));
            assert(placed.tiles@[i] == roomed.tiles@[i]);
        }
    }
    assert forall|k: int| 1 <= k < after.rooms@.len() implies after.corridor_floored(
        after.rooms@[k - 1],
        #[trigger] after.rooms@[k],
        true,
    ) || after.corridor_floored(after.rooms@[k - 1], after.rooms@[k], false) by {
        if k < n {
            assert(before.rooms@[k] == after.rooms@[k]);
            assert(before.rooms@[k - 1] == after.rooms@[k - 1]);
            if before.corridor_floored(before.rooms@[k - 1], before.rooms@[k], true) {
                assert(after.corridor_floored(after.rooms@[k - 1], after.rooms@[k], true));
            } else {
                assert(after.corridor_floored(after.rooms@[k - 1], after.rooms@[k], false));
            }
        } else {
            assert(after.rooms@[k - 1] == before.rooms@[n - 1]);
            assert(after.corridor_floored(after.rooms@[k - 1], after.rooms@[k], side));
        }
    }
    assert forall|i: int| 0 <= i < after.size() && #[trigger] after.tiles@[i] == TileType::Floor implies exists|k: int|
        0 <= k < after.rooms@.len() && after.carved_by(k, i) by {
        if before.tiles@[i] == TileType::Floor {
            let k = choose|k: int| 0 <= k < before.rooms@.len() && before.carved_by(k, i);
            assert(before.rooms@[k] == after.rooms@[k]);
            if k >= 1 {
                assert(before.rooms@[k - 1] == after.rooms@[k - 1]);
            }
            assert(after.carved_by(k, i));
        } else if room_covers(room, before.col(i), before.row(i)) {
            assert(after.rooms@[n] == room);
            assert(after.carved_by(n, i));
        } else {
            assert(n > 0);
            assert(after.rooms@[n] == room);
            assert(after.rooms@[n - 1] == before.rooms@[n - 1]);
            assert(after.carved_by(n, i));
        }
    }
}

} // verus!
