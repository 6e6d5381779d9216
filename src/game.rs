use vstd::prelude::*;

use crate::glyph::cp437_of;
use crate::map::DungeonMap;
use crate::player::{key_step, player_input, InputKey};
use crate::random::{new_rng, rng_roll_dice};
use crate::rect::half_toward_zero;

verus! {

/// Where the turn cycle stands.
#[derive(Clone, Copy, Debug, PartialEq, Eq, Structural)]
pub enum RunState {
    AwaitingInput,
    PreRun,
    PlayerTurn,
    MonsterTurn,
}

/// What one frame does: the state it leaves the cycle in, whether the
/// systems run, and the step the player tries, if any.
#[derive(Clone, Copy, Debug, PartialEq, Eq)]
pub struct TickPlan {
    pub next: RunState,
    pub run_systems: bool,
    pub step: Option<(i32, i32)>,
}

/// One frame of the turn cycle. While waiting, a movement key hands the
/// turn to the player; the start, the player's turn and the monsters' turn
/// each run the systems and pass on, to waiting, the monsters and waiting
/// again.
pub open spec fn spec_tick(current: RunState, key: Option<InputKey>) -> TickPlan {
    match current {
        RunState::AwaitingInput => {
            if key.is_some() && key_step(key.unwrap()).is_some() {
                TickPlan { next: RunState::PlayerTurn, run_systems: false, step: key_step(key.unwrap()) }
            } else {
                TickPlan { next: RunState::AwaitingInput, run_systems: false, step: None }
            }
        },
        RunState::PreRun => TickPlan { next: RunState::AwaitingInput, run_systems: true, step: None },
        RunState::PlayerTurn => TickPlan { next: RunState::MonsterTurn, run_systems: true, step: None },
        RunState::MonsterTurn => TickPlan { next: RunState::AwaitingInput, run_systems: true, step: None },
    }
}

pub fn tick_plan(current: RunState, key: Option<InputKey>) -> (r: TickPlan)
    ensures
        r == spec_tick(current, key),
{
    match current {
        RunState::AwaitingInput => {
            let (next, step) = player_input(key);
            TickPlan { next, run_systems: false, step }
        },
        RunState::PreRun => TickPlan { next: RunState::AwaitingInput, run_systems: true, step: None },
        RunState::PlayerTurn => TickPlan { next: RunState::MonsterTurn, run_systems: true, step: None },
        RunState::MonsterTurn => TickPlan { next: RunState::AwaitingInput, run_systems: true, step: None },
    }
}

/// After a movement key, the monsters get their turn within two more frames
/// and the game is back to waiting one frame later.
pub proof fn lemma_turn_cycle(key: InputKey, later1: Option<InputKey>, later2: Option<InputKey>)
    requires
        key_step(key).is_some(),
    ensures
        spec_tick(RunState::AwaitingInput, Some(key)).next == RunState::PlayerTurn,
        spec_tick(RunState::PlayerTurn, later1).next == RunState::MonsterTurn,
        spec_tick(RunState::MonsterTurn, later2).next == RunState::AwaitingInput,
{
}

/// How far the player sees.
pub const PLAYER_VIEWSHED: i32 = 8;

/// How far a monster sees.
pub const MONSTER_VIEWSHED: i32 = 8;

/// Hit points, defence and attack power of a fighter.
#[derive(Clone, Copy, Debug, PartialEq, Eq, Structural)]
pub struct CombatStats {
    pub max_hp: i32,
    pub hp: i32,
    pub defense: i32,
    pub power: i32,
}

/// The player starts with 30 hit points, defence 2 and power 5.
pub fn player_stats() -> (r: CombatStats)
    ensures
        r == (CombatStats { max_hp: 30, hp: 30, defense: 2, power: 5 }),
{
    CombatStats { max_hp: 30, hp: 30, defense: 2, power: 5 }
}

/// Every monster starts with 16 hit points, defence 1 and power 4.
pub fn monster_stats() -> (r: CombatStats)
    ensures
        r == (CombatStats { max_hp: 16, hp: 16, defense: 1, power: 4 }),
{
    CombatStats { max_hp: 16, hp: 16, defense: 1, power: 4 }
}

#[derive(Clone, Copy, Debug, PartialEq, Eq, Structural)]
pub enum MonsterKind {
    Goblin,
    Orc,
}

/// A roll of one on a two-sided die gives a goblin; anything else an orc.
pub fn monster_for_roll(roll: i32) -> (r: MonsterKind)
    ensures
        r == (if roll == 1 { MonsterKind::Goblin } else { MonsterKind::Orc }),
{
    if roll == 1 {
        MonsterKind::Goblin
    } else {
        MonsterKind::Orc
    }
}

pub open spec fn monster_char(kind: MonsterKind) -> char {
    match kind {
        MonsterKind::Goblin => 'g',
        MonsterKind::Orc => 'o',
    }
}

/// The glyph a monster is drawn with: `g` for a goblin, `o` for an orc.
pub fn monster_glyph(kind: MonsterKind) -> (r: u16)
    ensures
        r as u32 == monster_char(kind) as u32,
{
    match kind {
        MonsterKind::Goblin => cp437_of('g'),
        MonsterKind::Orc => cp437_of('o'),
    }
}

/// The glyph the player is drawn with, `@`.
pub fn player_glyph() -> (r: u16)
    ensures
        r as u32 == '@' as u32,
{
    cp437_of('@')
}

pub open spec fn monster_name_spec(kind: MonsterKind) -> Seq<char> {
    match kind {
        MonsterKind::Goblin => seq!['G', 'o', 'b', 'l', 'i', 'n'],
        MonsterKind::Orc => seq!['O', 'r', 'c'],
    }
}

/// The name a kind of monster goes by.
pub fn monster_name(kind: MonsterKind) -> (r: &'static str)
    ensures
        r@ == monster_name_spec(kind),
{
    match kind {
        MonsterKind::Goblin => {
            proof {
                reveal_strlit("Goblin");
            }
            "Goblin"
        },
        MonsterKind::Orc => {
            proof {
                reveal_strlit("Orc");
            }
            "Orc"
        },
    }
}

/// A monster to place: at the centre of a room, of a kind, and numbered in
/// the order of the rooms after the first.
#[derive(Clone, Copy, Debug, PartialEq, Eq, Structural)]
pub struct MonsterSpawn {
    pub x: i32,
    pub y: i32,
    pub kind: MonsterKind,
    pub number: usize,
}

/// The player starts at the centre of the first room.
pub fn player_start(map: &DungeonMap) -> (r: (i32, i32))
    requires
        map.rooms@.len() > 0,
        forall|k: int| 0 <= k < map.rooms@.len() ==> (#[trigger] map.rooms@[k]).center_fits(),
    ensures
        r.0 == half_toward_zero(map.rooms@[0].x1 + map.rooms@[0].x2),
        r.1 == half_toward_zero(map.rooms@[0].y1 + map.rooms@[0].y2),
{
    proof {
        assert(map.rooms@[0].center_fits());
    }
    map.rooms[0].center()
}

/// One monster at the centre of every room but the first, each a goblin or
/// an orc by the roll of a two-sided die.
pub fn spawn_monsters(map: &DungeonMap) -> (r: Vec<MonsterSpawn>)
    requires
        map.rooms@.len() > 0,
        forall|k: int| 0 <= k < map.rooms@.len() ==> (#[trigger] map.rooms@[k]).center_fits(),
    ensures
        r@.len() == map.rooms@.len() - 1,
        forall|i: int|
            0 <= i < r@.len() ==> {
                let room = map.rooms@[i + 1];
                &&& (#[trigger] r@[i]).number == i
                &&& r@[i].x == half_toward_zero(room.x1 + room.x2)
                &&& r@[i].y == half_toward_zero(room.y1 + room.y2)
            },
{
    let mut rng = new_rng();
    let mut spawns: Vec<MonsterSpawn> = Vec::new();
    let mut k: usize = 1;
    while k < map.rooms.len()
        invariant
            1 <= k <= map.rooms@.len(),
            forall|j: int| 0 <= j < map.rooms@.len() ==> (#[trigger] map.rooms@[j]).center_fits(),
            spawns@.len() == k - 1,
            forall|i: int|
                0 <= i < spawns@.len() ==> {
                    let room = map.rooms@[i + 1];
                    &&& (#[trigger] spawns@[i]).number == i
                    &&& spawns@[i].x == half_toward_zero(room.x1 + room.x2)
                    &&& spawns@[i].y == half_toward_zero(room.y1 + room.y2)
                },
        decreases map.rooms@.len() - k,
    {
        proof {
            assert(map.rooms@[k as int].center_fits());
        }
        let (x, y) = map.rooms[k].center();
        let roll = rng_roll_dice(&mut rng, 1, 2);
        spawns.push(MonsterSpawn { x, y, kind: monster_for_roll(roll), number: k - 1 });
        k = k + 1;
    }
    spawns
}

} // verus!
