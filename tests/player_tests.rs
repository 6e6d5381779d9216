use roguelike::components::Position;
use roguelike::game::RunState;
use roguelike::map::{DungeonMap, TileType};
use roguelike::player::{movement_for_key, player_input, try_move_player, InputKey, MoveOutcome};

fn open_map() -> DungeonMap {
    let mut m = DungeonMap::new_blank(80, 50);
    for t in m.tiles.iter_mut() {
        *t = TileType::Floor;
    }
    m
}

#[test]
fn keys_map_to_eight_directions() {
    let cases = [
        (InputKey::Left, Some((-1, 0))),
        (InputKey::Numpad4, Some((-1, 0))),
        (InputKey::A, Some((-1, 0))),
        (InputKey::Right, Some((1, 0))),
        (InputKey::Numpad6, Some((1, 0))),
        (InputKey::D, Some((1, 0))),
        (InputKey::Up, Some((0, -1))),
        (InputKey::Numpad8, Some((0, -1))),
        (InputKey::W, Some((0, -1))),
        (InputKey::Down, Some((0, 1))),
        (InputKey::Numpad2, Some((0, 1))),
        (InputKey::S, Some((0, 1))),
        (InputKey::Numpad9, Some((1, -1))),
        (InputKey::E, Some((1, -1))),
        (InputKey::Numpad7, Some((-1, -1))),
        (InputKey::Q, Some((-1, -1))),
        (InputKey::Numpad3, Some((1, 1))),
        (InputKey::X, Some((1, 1))),
        (InputKey::Numpad1, Some((-1, 1))),
        (InputKey::Z, Some((-1, 1))),
        (InputKey::Other, None),
    ];
    for (key, step) in cases {
        assert_eq!(movement_for_key(key), step);
    }
}

#[test]
fn no_key_keeps_waiting() {
    assert_eq!(player_input(None), (RunState::AwaitingInput, None));
}

#[test]
fn other_key_keeps_waiting() {
    assert_eq!(player_input(Some(InputKey::Other)), (RunState::AwaitingInput, None));
}

#[test]
fn movement_key_hands_turn_to_player() {
    assert_eq!(player_input(Some(InputKey::Q)), (RunState::PlayerTurn, Some((-1, -1))));
}

#[test]
fn step_onto_open_cell_moves() {
    let m = open_map();
    let mut p = Position { x: 10, y: 10 };
    let r = try_move_player(1, 1, &mut p, &m, &vec![]);
    assert_eq!(r, MoveOutcome { melee_target: None, moved: true });
    assert_eq!(p, Position { x: 11, y: 11 });
}

#[test]
fn step_off_the_edge_does_nothing() {
    let m = open_map();
    let mut p = Position { x: 1, y: 10 };
    let r = try_move_player(-1, 0, &mut p, &m, &vec![]);
    assert_eq!(r, MoveOutcome { melee_target: None, moved: false });
    assert_eq!(p, Position { x: 1, y: 10 });
    let mut q = Position { x: 79, y: 49 };
    let r = try_move_player(1, 0, &mut q, &m, &vec![]);
    assert_eq!(r, MoveOutcome { melee_target: None, moved: false });
    assert_eq!(q, Position { x: 79, y: 49 });
}

#[test]
fn step_onto_last_column_is_allowed() {
    let m = open_map();
    let mut p = Position { x: 78, y: 10 };
    let r = try_move_player(1, 0, &mut p, &m, &vec![]);
    assert!(r.moved);
    assert_eq!(p, Position { x: 79, y: 10 });
}

#[test]
fn step_onto_blocked_cell_stays() {
    let mut m = open_map();
    let i = m.xy_index(11, 10);
    m.blocked[i] = true;
    let mut p = Position { x: 10, y: 10 };
    let r = try_move_player(1, 0, &mut p, &m, &vec![]);
    assert_eq!(r, MoveOutcome { melee_target: None, moved: false });
    assert_eq!(p, Position { x: 10, y: 10 });
}

#[test]
fn step_onto_fighters_attacks_the_last_one() {
    let mut m = open_map();
    let i = m.xy_index(11, 10);
    m.blocked[i] = true;
    m.tile_content[i] = vec![4, 7, 9];
    let mut p = Position { x: 10, y: 10 };
    let r = try_move_player(1, 0, &mut p, &m, &vec![7, 4, 2]);
    assert_eq!(r, MoveOutcome { melee_target: Some(7), moved: false });
    assert_eq!(p, Position { x: 10, y: 10 });
}

#[test]
fn step_onto_entities_without_stats_attacks_nobody() {
    let mut m = open_map();
    let i = m.xy_index(10, 11);
    m.tile_content[i] = vec![3];
    let mut p = Position { x: 10, y: 10 };
    let r = try_move_player(0, 1, &mut p, &m, &vec![5]);
    assert_eq!(r, MoveOutcome { melee_target: None, moved: true });
    assert_eq!(p, Position { x: 10, y: 11 });
}

#[test]
fn attacking_on_open_cell_does_not_move() {
    let mut m = open_map();
    let i = m.xy_index(11, 10);
    m.tile_content[i] = vec![4];
    let mut p = Position { x: 10, y: 10 };
    let r = try_move_player(1, 0, &mut p, &m, &vec![4]);
    assert_eq!(r, MoveOutcome { melee_target: Some(4), moved: false });
    assert_eq!(p, Position { x: 10, y: 10 });
}
