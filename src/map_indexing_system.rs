use vstd::prelude::*;

use crate::map::{grid_index, in_grid, DungeonMap, TileType};

verus! {

/// An entity as the map index sees it: its id, its cell, and whether it
/// blocks that cell.
#[derive(Clone, Copy, Debug, PartialEq, Eq, Structural)]
pub struct EntityPlacement {
    pub id: u32,
    pub x: i32,
    pub y: i32,
    pub blocks: bool,
}

/// The ids of the entities of `entities` that stand on cell index `i`, in order.
pub open spec fn ids_at(width: int, entities: Seq<EntityPlacement>, i: int) -> Seq<u32>
    decreases entities.len(),
{
    if entities.len() == 0 {
        Seq::empty()
    } else {
        let rest = ids_at(width, entities.drop_last(), i);
        let e = entities.last();
        if grid_index(width, e.x as int, e.y as int) == i {
            rest.push(e.id)
        } else {
            rest
        }
    }
}

/// Some entity of `entities` that blocks stands on cell index `i`.
pub open spec fn blocker_at(width: int, entities: Seq<EntityPlacement>, i: int) -> bool {
    exists|k: int|
        0 <= k < entities.len() && entities[k].blocks && grid_index(
            width,
            entities[k].x as int,
            entities[k].y as int,
        ) == i
}

impl DungeonMap {
    /// Every wall blocks, and nothing else does.
    pub fn populate_blocked(&mut self)
        requires
            old(self).wf(),
        ensures
            final(self).wf(),
            final(self).tiles@ == old(self).tiles@,
            final(self).rooms@ == old(self).rooms@,
            final(self).width == old(self).width,
            final(self).height == old(self).height,
            final(self).revealed_tiles@ == old(self).revealed_tiles@,
            final(self).visible_tiles@ == old(self).visible_tiles@,
            final(self).tile_content@ == old(self).tile_content@,
            forall|i: int|
                0 <= i < old(self).size() ==> #[trigger] final(self).blocked@[i] == (
                old(self).tiles@[i] == TileType::Wall),
    {
        let ghost start = *self;
        let n = self.blocked.len();
        let mut i: usize = 0;
        while i < n
            invariant
                self.wf(),
                n == self.blocked@.len(),
                i <= n,
                self.tiles@ == start.tiles@,
                self.rooms@ == start.rooms@,
                self.width == start.width,
                self.height == start.height,
                self.revealed_tiles@ == start.revealed_tiles@,
                self.visible_tiles@ == start.visible_tiles@,
                self.tile_content@ == start.tile_content@,
                forall|k: int| 0 <= k < i ==> #[trigger] self.blocked@[k] == (self.tiles@[k] == TileType::Wall),
            decreases n - i,
        {
            let wall = self.tiles[i] == TileType::Wall;
            self.blocked.set(i, wall);
            i = i + 1;
        }
    }

    /// Empties the list of entities of every cell.
    pub fn clear_content_index(&mut self)
        requires
            old(self).wf(),
        ensures
            final(self).wf(),
            final(self).tiles@ == old(self).tiles@,
            final(self).rooms@ == old(self).rooms@,
            final(self).width == old(self).width,
            final(self).height == old(self).height,
            final(self).revealed_tiles@ == old(self).revealed_tiles@,
            final(self).visible_tiles@ == old(self).visible_tiles@,
            final(self).blocked@ == old(self).blocked@,
            forall|i: int| 0 <= i < old(self).size() ==> (#[trigger] final(self).tile_content@[i])@.len() == 0,
    {
        let ghost start = *self;
        let n = self.tile_content.len();
        let mut i: usize = 0;
        while i < n
            invariant
                self.wf(),
                n == self.tile_content@.len(),
                i <= n,
                self.tiles@ == start.tiles@,
                self.rooms@ == start.rooms@,
                self.width == start.width,
                self.height == start.height,
                self.revealed_tiles@ == start.revealed_tiles@,
                self.visible_tiles@ == start.visible_tiles@,
                self.blocked@ == start.blocked@,
                forall|k: int| 0 <= k < i ==> (#[trigger] self.tile_content@[k])@.len() == 0,
            decreases n - i,
        {
            self.tile_content.set(i, Vec::new());
            i = i + 1;
        }
    }
}

/// Rebuilds the map's index of what stands where: a cell is blocked when it
/// is a wall or a blocking entity stands on it, and each cell lists the ids
/// of the entities on it in the order given.
pub fn index_entities(map: &mut DungeonMap, entities: &Vec<EntityPlacement>)
    requires
        old(map).wf(),
        forall|k: int|
            0 <= k < entities@.len() ==> old(map).in_bounds(
                (#[trigger] entities@[k]).x as int,
                entities@[k].y as int,
            ),
    ensures
        final(map).wf(),
        final(map).tiles@ == old(map).tiles@,
        final(map).rooms@ == old(map).rooms@,
        final(map).width == old(map).width,
        final(map).height == old(map).height,
        final(map).revealed_tiles@ == old(map).revealed_tiles@,
        final(map).visible_tiles@ == old(map).visible_tiles@,
        forall|i: int|
            0 <= i < old(map).size() ==> #[trigger] final(map).blocked@[i] == (old(map).tiles@[i]
                == TileType::Wall || blocker_at(old(map).width as int, entities@, i)),
        forall|i: int|
            0 <= i < old(map).size() ==> (#[trigger] final(map).tile_content@[i])@ == ids_at(
                old(map).width as int,
                entities@,
                i,
            ),
{
    map.populate_blocked();
    map.clear_content_index();
    let ghost start = *map;
    let ghost w = map.width as int;
    let ghost h = map.height as int;
    let mut j: usize = 0;
    while j < entities.len()
        invariant
            map.wf(),
            start.wf(),
            w == start.width,
            h == start.height,
            j <= entities@.len(),
            map.tiles@ == start.tiles@,
            map.rooms@ == start.rooms@,
            map.width == start.width,
            map.height == start.height,
            map.revealed_tiles@ == start.revealed_tiles@,
            map.visible_tiles@ == start.visible_tiles@,
            forall|k: int|
                0 <= k < entities@.len() ==> in_grid(
                    w,
                    h,
                    (#[trigger] entities@[k]).x as int,
                    entities@[k].y as int,
                ),
            forall|c: int|
                0 <= c < w * h ==> #[trigger] map.blocked@[c] == (start.tiles@[c] == TileType::Wall
                    || blocker_at(w, entities@.take(j as int), c)),
            forall|c: int|
                0 <= c < w * h ==> (#[trigger] map.tile_content@[c])@ == ids_at(
                    w,
                    entities@.take(j as int),
                    c,
                ),
        decreases entities@.len() - j,
    {
        let e = entities[j];
        proof {
            assert(in_grid(w, h, entities@[j as int].x as int, entities@[j as int].y as int));
        }
        let index = map.xy_index(e.x, e.y);
        if e.blocks {
            map.blocked.set(index, true);
        }
        map.tile_content[index].push(e.id);
        proof {
            let before = entities@.take(j as int);
            let after = entities@.take(j + 1);
            assert(after.drop_last() =~= before);
            assert(after.last() == e);
            assert forall|c: int| 0 <= c < w * h implies blocker_at(w, after, c) == (blocker_at(w, before, c)
                || (e.blocks && c == index as int)) by {
                if blocker_at(w, before, c) {
                    let k = choose|k: int|
                        0 <= k < before.len() && before[k].blocks && grid_index(w, before[k].x as int, before[k].y as int) == c;
                    assert(after[k] == before[k]);
                }
                if e.blocks && c == index as int {
                    assert(after[j as int] == e);
                }
                if blocker_at(w, after, c) && !(e.blocks && c == index as int) {
                    let k = choose|k: int|
                        0 <= k < after.len() && after[k].blocks && grid_index(w, after[k].x as int, after[k].y as int) == c;
                    assert(k != j);
                    assert(before[k] == after[k]);
                }
            }
        }
        j = j + 1;
    }
    proof {
        assert(entities@.take(j as int) =~= entities@);
    }
}

} // verus!
