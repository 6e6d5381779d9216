use roguelike::game::{
    monster_for_roll, monster_glyph, monster_name, monster_stats, player_glyph, player_start,
    player_stats, spawn_monsters, tick_plan, CombatStats, MonsterKind, RunState, TickPlan,
};
use roguelike::map::DungeonMap;
use roguelike::player::InputKey;
use roguelike::rect::Rect;

#[test]
fn waiting_without_key_stays_waiting() {
    let p = tick_plan(RunState::AwaitingInput, None);
    assert_eq!(p, TickPlan { next: RunState::AwaitingInput, run_systems: false, step: None });
}

#[test]
fn waiting_with_other_key_stays_waiting() {
    let p = tick_plan(RunState::AwaitingInput, Some(InputKey::Other));
    assert_eq!(p, TickPlan { next: RunState::AwaitingInput, run_systems: false, step: None });
}

#[test]
fn waiting_with_move_key_gives_player_turn() {
    let p = tick_plan(RunState::AwaitingInput, Some(InputKey::D));
    assert_eq!(p, TickPlan { next: RunState::PlayerTurn, run_systems: false, step: Some((1, 0)) });
}

#[test]
fn turns_run_systems_and_cycle() {
    assert_eq!(
        tick_plan(RunState::PreRun, Some(InputKey::D)),
        TickPlan { next: RunState::AwaitingInput, run_systems: true, step: None }
    );
    assert_eq!(
        tick_plan(RunState::PlayerTurn, None),
        TickPlan { next: RunState::MonsterTurn, run_systems: true, step: None }
    );
    assert_eq!(
        tick_plan(RunState::MonsterTurn, None),
        TickPlan { next: RunState::AwaitingInput, run_systems: true, step: None }
    );
}

#[test]
fn roll_of_one_is_goblin() {
    assert_eq!(monster_for_roll(1), MonsterKind::Goblin);
    assert_eq!(monster_for_roll(2), MonsterKind::Orc);
}

#[test]
fn monster_glyphs_and_names() {
    assert_eq!(monster_glyph(MonsterKind::Goblin), 103);
    assert_eq!(monster_glyph(MonsterKind::Orc), 111);
    assert_eq!(player_glyph(), 64);
    assert_eq!(monster_name(MonsterKind::Goblin), "Goblin");
    assert_eq!(monster_name(MonsterKind::Orc), "Orc");
}

#[test]
fn starting_stats() {
    assert_eq!(player_stats(), CombatStats { max_hp: 30, hp: 30, defense: 2, power: 5 });
    assert_eq!(monster_stats(), CombatStats { max_hp: 16, hp: 16, defense: 1, power: 4 });
}

#[test]
fn player_starts_in_first_room() {
    let mut m = DungeonMap::new_blank(80, 50);
    m.rooms.push(Rect::new(10, 20, 6, 8));
    m.rooms.push(Rect::new(30, 5, 7, 7));
    assert_eq!(player_start(&m), (13, 24));
}

#[test]
fn one_monster_per_later_room() {
    let mut m = DungeonMap::new_blank(80, 50);
    m.rooms.push(Rect::new(10, 20, 6, 8));
    m.rooms.push(Rect::new(30, 5, 7, 7));
    m.rooms.push(Rect::new(50, 30, 8, 6));
    let s = spawn_monsters(&m);
    assert_eq!(s.len(), 2);
    assert_eq!((s[0].x, s[0].y, s[0].number), (33, 8, 0));
    assert_eq!((s[1].x, s[1].y, s[1].number), (54, 33, 1));
}

#[test]
fn single_room_spawns_no_monster() {
    let mut m = DungeonMap::new_blank(80, 50);
    m.rooms.push(Rect::new(10, 20, 6, 8));
    assert!(spawn_monsters(&m).is_empty());
}
