use roguelike::map::{DungeonMap, TileType};
use roguelike::map_indexing_system::{index_entities, EntityPlacement};
use roguelike::visibility_system::{retain_on_map, reveal_seen, update_viewshed};

fn open_map(w: i32, h: i32) -> DungeonMap {
    let mut m = DungeonMap::new_blank(w, h);
    for t in m.tiles.iter_mut() {
        *t = TileType::Floor;
    }
    m
}

#[test]
fn field_of_view_is_cut_to_the_map() {
    let m = open_map(5, 4);
    let kept = retain_on_map(&m, vec![(-1, 0), (0, 0), (4, 3), (5, 1), (2, 4), (2, -1), (1, 2)]);
    assert_eq!(kept, vec![(0, 0), (4, 3), (1, 2)]);
}

#[test]
fn empty_field_of_view_stays_empty() {
    let m = open_map(5, 4);
    assert!(retain_on_map(&m, vec![]).is_empty());
}

#[test]
fn player_sees_exactly_its_view_and_remembers() {
    let mut m = open_map(5, 4);
    reveal_seen(&mut m, &vec![(0, 0), (1, 0)]);
    reveal_seen(&mut m, &vec![(1, 0), (2, 3)]);
    let v: Vec<usize> = (0..20).filter(|i| m.visible_tiles[*i]).collect();
    let r: Vec<usize> = (0..20).filter(|i| m.revealed_tiles[*i]).collect();
    assert_eq!(v, vec![1, 17]);
    assert_eq!(r, vec![0, 1, 17]);
}

#[test]
fn monster_view_leaves_the_map_alone() {
    let mut m = open_map(5, 4);
    let kept = update_viewshed(&mut m, vec![(1, 1), (9, 9)], false);
    assert_eq!(kept, vec![(1, 1)]);
    assert!(m.visible_tiles.iter().all(|b| !*b));
    assert!(m.revealed_tiles.iter().all(|b| !*b));
}

#[test]
fn player_view_updates_the_map() {
    let mut m = open_map(5, 4);
    let kept = update_viewshed(&mut m, vec![(1, 1), (9, 9), (4, 0)], true);
    assert_eq!(kept, vec![(1, 1), (4, 0)]);
    assert!(m.visible_tiles[6] && m.visible_tiles[4]);
    assert_eq!(m.visible_tiles.iter().filter(|b| **b).count(), 2);
    assert!(m.revealed_tiles[6] && m.revealed_tiles[4]);
}

#[test]
fn populate_blocked_marks_walls() {
    let mut m = DungeonMap::new_blank(3, 2);
    m.tiles[1] = TileType::Floor;
    m.blocked[1] = true;
    m.populate_blocked();
    assert_eq!(m.blocked, vec![true, false, true, true, true, true]);
}

#[test]
fn clear_content_index_empties_cells() {
    let mut m = DungeonMap::new_blank(3, 2);
    m.tile_content[2] = vec![1, 2];
    m.clear_content_index();
    assert!(m.tile_content.iter().all(|c| c.is_empty()));
}

#[test]
fn indexing_records_blockers_and_contents() {
    let mut m = open_map(4, 3);
    m.tiles[0] = TileType::Wall;
    m.tile_content[3] = vec![99];
    m.blocked[3] = true;
    let ents = vec![
        EntityPlacement { id: 5, x: 1, y: 1, blocks: false },
        EntityPlacement { id: 6, x: 2, y: 2, blocks: true },
        EntityPlacement { id: 7, x: 1, y: 1, blocks: true },
        EntityPlacement { id: 8, x: 3, y: 0, blocks: false },
    ];
    index_entities(&mut m, &ents);
    assert_eq!(m.tile_content[5], vec![5, 7]);
    assert_eq!(m.tile_content[10], vec![6]);
    assert_eq!(m.tile_content[3], vec![8]);
    assert!(m.tile_content[0].is_empty());
    let blocked: Vec<usize> = (0..12).filter(|i| m.blocked[*i]).collect();
    assert_eq!(blocked, vec![0, 5, 10]);
}
