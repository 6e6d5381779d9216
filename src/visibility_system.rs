use vstd::prelude::*;

use crate::map::{grid_index, in_grid, lemma_cell_of_index, lemma_grid_index, DungeonMap};

verus! {

/// The points of `points` that lie on a `width` by `height` grid, in order.
pub open spec fn points_in_grid(width: int, height: int, points: Seq<(i32, i32)>) -> Seq<(i32, i32)>
    decreases points.len(),
{
    if points.len() == 0 {
        Seq::empty()
    } else {
        let rest = points_in_grid(width, height, points.drop_last());
        if in_grid(width, height, points.last().0 as int, points.last().1 as int) {
            rest.push(points.last())
        } else {
            rest
        }
    }
}

/// Every point that `points_in_grid` keeps lies on the grid.
pub proof fn lemma_points_in_grid(width: int, height: int, points: Seq<(i32, i32)>)
    ensures
        forall|k: int|
            0 <= k < points_in_grid(width, height, points).len() ==> in_grid(
                width,
                height,
                (#[trigger] points_in_grid(width, height, points)[k]).0 as int,
                points_in_grid(width, height, points)[k].1 as int,
            ),
    decreases points.len(),
{
    if points.len() > 0 {
        lemma_points_in_grid(width, height, points.drop_last());
        let rest = points_in_grid(width, height, points.drop_last());
        let all = points_in_grid(width, height, points);
        assert forall|k: int| 0 <= k < all.len() implies in_grid(
            width,
            height,
            (#[trigger] all[k]).0 as int,
            all[k].1 as int,
        ) by {
            if k < rest.len() {
                assert(all[k] == rest[k]);
            }
        }
    }
}

/// Cell index `i` is one of the cells that `points` names.
pub open spec fn seen_cell(width: int, points: Seq<(i32, i32)>, i: int) -> bool {
    exists|k: int| 0 <= k < points.len() && grid_index(width, points[k].0 as int, points[k].1 as int) == i
}

/// Keeps the points of a field of view that lie on the map, in order.
pub fn retain_on_map(map: &DungeonMap, points: Vec<(i32, i32)>) -> (r: Vec<(i32, i32)>)
    ensures
        r@ == points_in_grid(map.width as int, map.height as int, points@),
{
    let mut kept: Vec<(i32, i32)> = Vec::new();
    let mut j: usize = 0;
    while j < points.len()
        invariant
            j <= points@.len(),
            kept@ == points_in_grid(map.width as int, map.height as int, points@.take(j as int)),
        decreases points@.len() - j,
    {
        let p = points[j];
        if p.0 >= 0 && p.0 < map.width && p.1 >= 0 && p.1 < map.height {
            kept.push(p);
        }
        proof {
            let next = points@.take(j + 1);
            assert(next.drop_last() =~= points@.take(j as int));
            assert(next.last() == points@[j as int]);
        }
        j = j + 1;
    }
    proof {
        assert(points@.take(j as int) =~= points@);
    }
    kept
}

/// Shows the player what it sees now: exactly the cells of `seen` are
/// visible, and they join the cells revealed before.
pub fn reveal_seen(map: &mut DungeonMap, seen: &Vec<(i32, i32)>)
    requires
        old(map).wf(),
        forall|k: int|
            0 <= k < seen@.len() ==> old(map).in_bounds(
                (#[trigger] seen@[k]).0 as int,
                seen@[k].1 as int,
            ),
    ensures
        final(map).wf(),
        final(map).tiles@ == old(map).tiles@,
        final(map).rooms@ == old(map).rooms@,
        final(map).width == old(map).width,
        final(map).height == old(map).height,
        final(map).blocked@ == old(map).blocked@,
        final(map).tile_content@ == old(map).tile_content@,
        forall|i: int|
            0 <= i < old(map).size() ==> #[trigger] final(map).visible_tiles@[i] == seen_cell(
                old(map).width as int,
                seen@,
                i,
            ),
        forall|i: int|
            0 <= i < old(map).size() ==> #[trigger] final(map).revealed_tiles@[i] == (
            old(map).revealed_tiles@[i] || seen_cell(old(map).width as int, seen@, i)),
{
    let ghost start = *map;
    let ghost w = map.width as int;
    let ghost h = map.height as int;
    let n = map.visible_tiles.len();
    let mut i: usize = 0;
    while i < n
        invariant
            map.wf(),
            start.wf(),
            n == map.visible_tiles@.len(),
            i <= n,
            map.tiles@ == start.tiles@,
            map.rooms@ == start.rooms@,
            map.width == start.width,
            map.height == start.height,
            map.blocked@ == start.blocked@,
            map.tile_content@ == start.tile_content@,
            map.revealed_tiles@ == start.revealed_tiles@,
            forall|k: int| 0 <= k < i ==> !#[trigger] map.visible_tiles@[k],
        decreases n - i,
    {
        map.visible_tiles.set(i, false);
        i = i + 1;
    }
    let mut j: usize = 0;
    while j < seen.len()
        invariant
            map.wf(),
            start.wf(),
            w == start.width,
            h == start.height,
            j <= seen@.len(),
            map.tiles@ == start.tiles@,
            map.rooms@ == start.rooms@,
            map.width == start.width,
            map.height == start.height,
            map.blocked@ == start.blocked@,
            map.tile_content@ == start.tile_content@,
            forall|k: int|
                0 <= k < seen@.len() ==> in_grid(w, h, (#[trigger] seen@[k]).0 as int, seen@[k].1 as int),
            forall|c: int|
                0 <= c < w * h ==> #[trigger] map.visible_tiles@[c] == seen_cell(w, seen@.take(j as int), c),
            forall|c: int|
                0 <= c < w * h ==> #[trigger] map.revealed_tiles@[c] == (start.revealed_tiles@[c]
                    || seen_cell(w, seen@.take(j as int), c)),
        decreases seen@.len() - j,
    {
        let p = seen[j];
        proof {
            assert(in_grid(w, h, seen@[j as int].0 as int, seen@[j as int].1 as int));
        }
        let index = map.xy_index(p.0, p.1);
        map.revealed_tiles.set(index, true);
        map.visible_tiles.set(index, true);
        proof {
            let before = seen@.take(j as int);
            let after = seen@.take(j + 1);
            assert forall|c: int| 0 <= c < w * h implies seen_cell(w, after, c) == (seen_cell(w, before, c)
                || c == index as int) by {
                if seen_cell(w, before, c) {
                    let k = choose|k: int| 0 <= k < before.len() && grid_index(w, before[k].0 as int, before[k].1 as int) == c;
                    assert(after[k] == before[k]);
                }
                if c == index as int {
                    assert(after[j as int] == p);
                }
                if seen_cell(w, after, c) && c != index as int {
                    let k = choose|k: int| 0 <= k < after.len() && grid_index(w, after[k].0 as int, after[k].1 as int) == c;
                    assert(k != j);
                    assert(before[k] == after[k]);
                }
            }
        }
        j = j + 1;
    }
    proof {
        assert(seen@.take(j as int) =~= seen@);
    }
}

/// What the visibility system does for one entity whose view is out of
/// date: it keeps the cells of the field of view `fov` that lie on the map,
/// and when the entity is the player the map shows exactly those cells.
pub fn update_viewshed(map: &mut DungeonMap, fov: Vec<(i32, i32)>, is_player: bool) -> (r: Vec<(i32, i32)>)
    requires
        old(map).wf(),
    ensures
        r@ == points_in_grid(old(map).width as int, old(map).height as int, fov@),
        final(map).wf(),
        final(map).tiles@ == old(map).tiles@,
        final(map).rooms@ == old(map).rooms@,
        final(map).width == old(map).width,
        final(map).height == old(map).height,
        final(map).blocked@ == old(map).blocked@,
        final(map).tile_content@ == old(map).tile_content@,
        !is_player ==> final(map).visible_tiles@ == old(map).visible_tiles@
            && final(map).revealed_tiles@ == old(map).revealed_tiles@,
        is_player ==> forall|i: int|
            0 <= i < old(map).size() ==> #[trigger] final(map).visible_tiles@[i] == seen_cell(
                old(map).width as int,
                r@,
                i,
            ),
        is_player ==> forall|i: int|
            0 <= i < old(map).size() ==> #[trigger] final(map).revealed_tiles@[i] == (
            old(map).revealed_tiles@[i] || seen_cell(old(map).width as int, r@, i)),
{
    let visible = retain_on_map(map, fov);
    proof {
        lemma_points_in_grid(map.width as int, map.height as int, fov@);
    }
    if is_player {
        reveal_seen(map, &visible);
    }
    visible
}

} // verus!
