use vstd::prelude::*;

use crate::map::{grid_index, in_grid, lemma_grid_index, TileType, MAP_SIZE_X, MAP_SIZE_Y};
use crate::random::{new_rng, rng_roll_dice};

verus! {

/// Number of walls scattered over the open arena.
pub const SCATTERED_WALLS: i32 = 400;

/// Index of cell `(x, y)` in the fixed-width arena grid.
pub fn xy_index(x: i32, y: i32) -> (r: usize)
    requires
        0 <= x,
        0 <= y,
        grid_index(MAP_SIZE_X as int, x as int, y as int) <= usize::MAX,
    ensures
        r == grid_index(MAP_SIZE_X as int, x as int, y as int),
{
    (y as usize * MAP_SIZE_X as usize) + x as usize
}

/// Cell index `i` of the arena lies on its outer ring.
pub open spec fn arena_border(i: int) -> bool {
    let x = i % (MAP_SIZE_X as int);
    let y = i / (MAP_SIZE_X as int);
    x == 0 || y == 0 || x == MAP_SIZE_X - 1 || y == MAP_SIZE_Y - 1
}

/// Index of the arena's middle cell, where the player starts.
pub open spec fn arena_middle() -> int {
    grid_index(MAP_SIZE_X as int, (MAP_SIZE_X / 2) as int, (MAP_SIZE_Y / 2) as int)
}

/// Cell index `i` of the arena is the cell of one of the `draws`, the
/// middle cell excepted.
pub open spec fn scattered_on(draws: Seq<(i32, i32)>, i: int) -> bool {
    i != arena_middle() && exists|k: int|
        0 <= k < draws.len() && grid_index(MAP_SIZE_X as int, draws[k].0 as int, draws[k].1 as int) == i
}

/// Walls the cell of each of `draws`, except the middle cell, which is kept
/// clear for the player; every other cell stays as it was.
pub fn scatter_walls(map: &mut Vec<TileType>, draws: &Vec<(i32, i32)>)
    requires
        old(map)@.len() == MAP_SIZE_X * MAP_SIZE_Y,
        forall|k: int|
            0 <= k < draws@.len() ==> in_grid(
                MAP_SIZE_X as int,
                MAP_SIZE_Y as int,
                (#[trigger] draws@[k]).0 as int,
                draws@[k].1 as int,
            ),
    ensures
        final(map)@.len() == old(map)@.len(),
        forall|i: int|
            0 <= i < old(map)@.len() ==> #[trigger] final(map)@[i] == if scattered_on(draws@, i) {
                TileType::Wall
            } else {
                old(map)@[i]
            },
{
    let ghost start = map@;
    let middle = xy_index(MAP_SIZE_X / 2, MAP_SIZE_Y / 2);
    let mut j: usize = 0;
    while j < draws.len()
        invariant
            j <= draws@.len(),
            middle == arena_middle(),
            map@.len() == start.len(),
            start.len() == MAP_SIZE_X * MAP_SIZE_Y,
            forall|k: int|
                0 <= k < draws@.len() ==> in_grid(
                    MAP_SIZE_X as int,
                    MAP_SIZE_Y as int,
                    (#[trigger] draws@[k]).0 as int,
                    draws@[k].1 as int,
                ),
            forall|i: int|
                0 <= i < start.len() ==> #[trigger] map@[i] == if scattered_on(draws@.take(j as int), i) {
                    TileType::Wall
                } else {
                    start[i]
                },
        decreases draws@.len() - j,
    {
        let (x, y) = draws[j];
        proof {
            assert(in_grid(MAP_SIZE_X as int, MAP_SIZE_Y as int, x as int, y as int));
            lemma_grid_index(MAP_SIZE_X as int, MAP_SIZE_Y as int, x as int, y as int);
        }
        let index = xy_index(x, y);
        if index != middle {
            map.set(index, TileType::Wall);
        }
        proof {
            let before = draws@.take(j as int);
            let after = draws@.take(j + 1);
            assert forall|i: int| 0 <= i < start.len() implies scattered_on(after, i) == (scattered_on(
                before,
                i,
            ) || (i == index && index != middle)) by {
                if scattered_on(before, i) {
                    let k = choose|k: int|
                        0 <= k < before.len() && grid_index(
                            MAP_SIZE_X as int,
                            before[k].0 as int,
                            before[k].1 as int,
                        ) == i;
                    assert(after[k] == before[k]);
                }
                if i == index && index != middle {
                    assert(after[j as int] == (x, y));
                }
                if scattered_on(after, i) && i != index {
                    let k = choose|k: int|
                        0 <= k < after.len() && grid_index(
                            MAP_SIZE_X as int,
                            after[k].0 as int,
                            after[k].1 as int,
                        ) == i;
                    assert(k != j);
                    assert(before[k] == after[k]);
                }
            }
        }
        j = j + 1;
    }
    proof {
        assert(draws@.take(j as int) =~= draws@);
    }
}

/// An open arena: floor, a wall all round, and walls on cells drawn at
/// random, never on the middle cell.
pub fn new_map() -> (r: Vec<TileType>)
    ensures
        r@.len() == MAP_SIZE_X * MAP_SIZE_Y,
        r@[arena_middle()] == TileType::Floor,
        exists|draws: Seq<(i32, i32)>|
            draws.len() == SCATTERED_WALLS && forall|i: int|
                0 <= i < r@.len() ==> (#[trigger] r@[i] == TileType::Wall) == (arena_border(i)
                    || scattered_on(draws, i)),
{
    let n: usize = (MAP_SIZE_X * MAP_SIZE_Y) as usize;
    let mut map: Vec<TileType> = Vec::new();
    let mut k: usize = 0;
    while k < n
        invariant
            k <= n,
            n == MAP_SIZE_X * MAP_SIZE_Y,
            map@.len() == k,
            forall|i: int| 0 <= i < k ==> #[trigger] map@[i] == TileType::Floor,
        decreases n - k,
    {
        map.push(TileType::Floor);
        k = k + 1;
    }
    let mut x: i32 = 0;
    while x < MAP_SIZE_X
        invariant
            0 <= x <= MAP_SIZE_X,
            map@.len() == MAP_SIZE_X * MAP_SIZE_Y,
            forall|i: int|
                0 <= i < map@.len() ==> #[trigger] map@[i] == if (i / 80 == 0 || i / 80
                    == MAP_SIZE_Y - 1) && i % 80 < x {
                    TileType::Wall
                } else {
                    TileType::Floor
                },
        decreases MAP_SIZE_X - x,
    {
        map.set(xy_index(x, 0), TileType::Wall);
        map.set(xy_index(x, MAP_SIZE_Y - 1), TileType::Wall);
        x = x + 1;
    }
    let mut y: i32 = 0;
    while y < MAP_SIZE_Y
        invariant
            0 <= y <= MAP_SIZE_Y,
            map@.len() == MAP_SIZE_X * MAP_SIZE_Y,
            forall|i: int|
                0 <= i < map@.len() ==> #[trigger] map@[i] == if (i / 80 == 0 || i / 80
                    == MAP_SIZE_Y - 1) || ((i % 80 == 0 || i % 80 == MAP_SIZE_X - 1) && i / 80
                    < y) {
                    TileType::Wall
                } else {
                    TileType::Floor
                },
        decreases MAP_SIZE_Y - y,
    {
        map.set(xy_index(0, y), TileType::Wall);
        map.set(xy_index(MAP_SIZE_X - 1, y), TileType::Wall);
        y = y + 1;
    }
    let mut rng = new_rng();
    let mut draws: Vec<(i32, i32)> = Vec::new();
    let mut placed: i32 = 0;
    while placed < SCATTERED_WALLS
        invariant
            0 <= placed <= SCATTERED_WALLS,
            draws@.len() == placed,
            forall|k: int|
                0 <= k < draws@.len() ==> in_grid(
                    MAP_SIZE_X as int,
                    MAP_SIZE_Y as int,
                    (#[trigger] draws@[k]).0 as int,
                    draws@[k].1 as int,
                ),
        decreases SCATTERED_WALLS - placed,
    {
        let x = rng_roll_dice(&mut rng, 1, MAP_SIZE_X - 1);
        let y = rng_roll_dice(&mut rng, 1, MAP_SIZE_Y - 1);
        draws.push((x, y));
        placed = placed + 1;
    }
    let ghost walled = map@;
    scatter_walls(&mut map, &draws);
    proof {
        assert(!arena_border(arena_middle()));
        assert forall|i: int| 0 <= i < map@.len() implies (#[trigger] map@[i] == TileType::Wall) == (
        arena_border(i) || scattered_on(draws@, i)) by {
            assert(walled[i] == TileType::Wall <==> arena_border(i));
        }
    }
    map
}

/// The cell that arena index `index` names, as `(x, y)`.
pub fn cell_of_index(index: usize) -> (r: (i32, i32))
    requires
        index < MAP_SIZE_X * MAP_SIZE_Y,
    ensures
        r.0 == index as int % (MAP_SIZE_X as int),
        r.1 == index as int / (MAP_SIZE_X as int),
{
    ((index % (MAP_SIZE_X as usize)) as i32, (index / (MAP_SIZE_X as usize)) as i32)
}

} // verus!
