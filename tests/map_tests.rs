use roguelike::map::{tile_glyph, tile_look, DungeonMap, TileType, MAP_SIZE_X, MAP_SIZE_Y};
use roguelike::rect::Rect;

fn blank(w: i32, h: i32) -> DungeonMap {
    DungeonMap::new_blank(w, h)
}

#[test]
fn rect_new_keeps_corner_and_adds_size() {
    let r = Rect::new(3, 4, 6, 7);
    assert_eq!(r, Rect { x1: 3, y1: 4, x2: 9, y2: 11 });
}

#[test]
fn rects_that_touch_intersect() {
    let a = Rect::new(0, 0, 5, 5);
    let b = Rect::new(5, 5, 3, 3);
    assert!(a.intersect(&b));
    assert!(b.intersect(&a));
}

#[test]
fn rects_apart_do_not_intersect() {
    let a = Rect::new(0, 0, 5, 5);
    let b = Rect::new(6, 0, 3, 3);
    assert!(!a.intersect(&b));
    let c = Rect::new(0, 6, 3, 3);
    assert!(!a.intersect(&c));
}

#[test]
fn rect_center_rounds_toward_zero() {
    assert_eq!(Rect::new(2, 4, 7, 6).center(), (5, 7));
    assert_eq!(Rect { x1: -3, y1: -5, x2: 0, y2: 0 }.center(), (-1, -2));
}

#[test]
fn xy_index_is_row_major() {
    let m = blank(10, 5);
    assert_eq!(m.xy_index(0, 0), 0);
    assert_eq!(m.xy_index(3, 2), 23);
    assert_eq!(m.xy_index(9, 4), 49);
}

#[test]
fn blank_map_is_all_wall_and_unseen() {
    let m = blank(4, 3);
    assert_eq!(m.tiles.len(), 12);
    assert!(m.tiles.iter().all(|t| *t == TileType::Wall));
    assert!(m.revealed_tiles.iter().all(|b| !*b));
    assert!(m.visible_tiles.iter().all(|b| !*b));
    assert!(m.blocked.iter().all(|b| !*b));
    assert!(m.tile_content.iter().all(|c| c.is_empty()));
    assert!(m.rooms.is_empty());
}

#[test]
fn walls_are_opaque_and_floors_are_not() {
    let mut m = blank(3, 3);
    m.tiles[4] = TileType::Floor;
    assert!(m.is_opaque(0));
    assert!(!m.is_opaque(4));
}

#[test]
fn generated_level_is_sound() {
    for _ in 0..20 {
        let m = DungeonMap::new_map_rooms_and_corridors();
        assert_eq!(m.width, MAP_SIZE_X);
        assert_eq!(m.height, MAP_SIZE_Y);
        assert_eq!(m.tiles.len(), 4000);
        assert!(!m.rooms.is_empty() && m.rooms.len() <= 30);
        for (a, ra) in m.rooms.iter().enumerate() {
            assert!(ra.x1 >= 0 && ra.y1 >= 0 && ra.x2 <= 78 && ra.y2 <= 48);
            assert!((6..10).contains(&(ra.x2 - ra.x1)));
            assert!((6..10).contains(&(ra.y2 - ra.y1)));
            for (b, rb) in m.rooms.iter().enumerate() {
                if a != b {
                    assert!(!ra.intersect(rb));
                }
            }
            for y in ra.y1 + 1..=ra.y2 {
                for x in ra.x1 + 1..=ra.x2 {
                    assert_eq!(m.tiles[m.xy_index(x, y)], TileType::Floor);
                }
            }
        }
        for x in 0..80 {
            assert_eq!(m.tiles[m.xy_index(x, 0)], TileType::Wall);
            assert_eq!(m.tiles[m.xy_index(x, 49)], TileType::Wall);
        }
        for y in 0..50 {
            assert_eq!(m.tiles[m.xy_index(0, y)], TileType::Wall);
            assert_eq!(m.tiles[m.xy_index(79, y)], TileType::Wall);
        }
        assert!(m.revealed_tiles.iter().all(|b| !*b));
        assert!(m.visible_tiles.iter().all(|b| !*b));
    }
}

fn on_corridor(prev: &Rect, next: &Rect, along_prev_row: bool, x: i32, y: i32) -> bool {
    let (px, py) = prev.center();
    let (nx, ny) = next.center();
    let (row, col) = if along_prev_row { (py, nx) } else { (ny, px) };
    (y == row && px.min(nx) <= x && x <= px.max(nx)) || (x == col && py.min(ny) <= y && y <= py.max(ny))
}

#[test]
fn generated_rooms_are_joined_by_corridors() {
    for _ in 0..20 {
        let m = DungeonMap::new_map_rooms_and_corridors();
        for k in 1..m.rooms.len() {
            let (a, b) = (&m.rooms[k - 1], &m.rooms[k]);
            let dug = |side: bool| {
                (0..50).all(|y| {
                    (0..80).all(|x| !on_corridor(a, b, side, x, y) || m.tiles[m.xy_index(x, y)] == TileType::Floor)
                })
            };
            assert!(dug(true) || dug(false));
        }
    }
}

#[test]
fn generated_floor_is_rooms_and_corridors_only() {
    for _ in 0..20 {
        let m = DungeonMap::new_map_rooms_and_corridors();
        for y in 0..50 {
            for x in 0..80 {
                if m.tiles[m.xy_index(x, y)] != TileType::Floor {
                    continue;
                }
                let explained = (0..m.rooms.len()).any(|k| {
                    let r = &m.rooms[k];
                    (r.x1 < x && x <= r.x2 && r.y1 < y && y <= r.y2)
                        || (k >= 1
                            && (on_corridor(&m.rooms[k - 1], r, true, x, y)
                                || on_corridor(&m.rooms[k - 1], r, false, x, y)))
                });
                assert!(explained);
            }
        }
    }
}

#[test]
fn tile_glyphs_are_dot_and_hash() {
    assert_eq!(tile_glyph(TileType::Floor), 46);
    assert_eq!(tile_glyph(TileType::Wall), 35);
}

#[test]
fn unrevealed_tile_is_not_drawn() {
    let m = blank(5, 4);
    assert_eq!(tile_look(&m, 7), None);
}

#[test]
fn revealed_tile_out_of_view_is_greyed() {
    let mut m = blank(5, 4);
    m.tiles[7] = TileType::Floor;
    m.revealed_tiles[7] = true;
    let look = tile_look(&m, 7).unwrap();
    assert_eq!((look.x, look.y), (2, 1));
    assert_eq!(look.glyph, 46);
    assert_eq!(look.tile, TileType::Floor);
    assert!(look.greyed);
    m.visible_tiles[7] = true;
    assert!(!tile_look(&m, 7).unwrap().greyed);
}

#[test]
fn entities_show_only_on_visible_cells() {
    let mut m = blank(5, 4);
    let i = m.xy_index(1, 2);
    m.visible_tiles[i] = true;
    assert!(m.is_visible_at(1, 2));
    assert!(!m.is_visible_at(2, 1));
}
