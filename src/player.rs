use vstd::prelude::*;

use crate::components::Position;
use crate::game::RunState;
use crate::map::{DungeonMap, MAP_SIZE_X, MAP_SIZE_Y};

verus! {

/// The keys the game reads; every other key is `Other`.
#[derive(Clone, Copy, Debug, PartialEq, Eq, Structural)]
pub enum InputKey {
    Left,
    Right,
    Up,
    Down,
    Numpad1,
    Numpad2,
    Numpad3,
    Numpad4,
    Numpad6,
    Numpad7,
    Numpad8,
    Numpad9,
    A,
    D,
    W,
    S,
    Q,
    E,
    Z,
    X,
    Other,
}

/// The step, as `(delta_x, delta_y)`, that a key asks for: arrows, the
/// number pad and the letters around `S` move in eight directions.
pub open spec fn key_step(key: InputKey) -> Option<(i32, i32)> {
    match key {
        InputKey::Left | InputKey::Numpad4 | InputKey::A => Some((-1i32, 0i32)),
        InputKey::Right | InputKey::Numpad6 | InputKey::D => Some((1, 0)),
        InputKey::Up | InputKey::Numpad8 | InputKey::W => Some((0i32, -1i32)),
        InputKey::Down | InputKey::Numpad2 | InputKey::S => Some((0, 1)),
        InputKey::Numpad9 | InputKey::E => Some((1i32, -1i32)),
        InputKey::Numpad7 | InputKey::Q => Some((-1i32, -1i32)),
        InputKey::Numpad3 | InputKey::X => Some((1, 1)),
        InputKey::Numpad1 | InputKey::Z => Some((-1i32, 1i32)),
        InputKey::Other => None,
    }
}

pub fn movement_for_key(key: InputKey) -> (r: Option<(i32, i32)>)
    ensures
        r == key_step(key),
{
    match key {
        InputKey::Left | InputKey::Numpad4 | InputKey::A => Some((-1, 0)),
        InputKey::Right | InputKey::Numpad6 | InputKey::D => Some((1, 0)),
        InputKey::Up | InputKey::Numpad8 | InputKey::W => Some((0, -1)),
        InputKey::Down | InputKey::Numpad2 | InputKey::S => Some((0, 1)),
        InputKey::Numpad9 | InputKey::E => Some((1, -1)),
        InputKey::Numpad7 | InputKey::Q => Some((-1, -1)),
        InputKey::Numpad3 | InputKey::X => Some((1, 1)),
        InputKey::Numpad1 | InputKey::Z => Some((-1, 1)),
        InputKey::Other => None,
    }
}

/// Reads the key pressed this frame, if any. A movement key ends the wait
/// for input and yields the step to try; no key, or any other key, keeps
/// the game waiting.
pub fn player_input(key: Option<InputKey>) -> (r: (RunState, Option<(i32, i32)>))
    ensures
        key.is_none() ==> r == (RunState::AwaitingInput, None::<(i32, i32)>),
        key.is_some() && key_step(key.unwrap()).is_none() ==> r == (
            RunState::AwaitingInput,
            None::<(i32, i32)>,
        ),
        key.is_some() && key_step(key.unwrap()).is_some() ==> r == (
            RunState::PlayerTurn,
            key_step(key.unwrap()),
        ),
{
    match key {
        None => (RunState::AwaitingInput, None),
        Some(k) => match movement_for_key(k) {
            None => (RunState::AwaitingInput, None),
            Some(step) => (RunState::PlayerTurn, Some(step)),
        },
    }
}

/// `v` held to `[0, hi]`.
pub open spec fn clamp_coord(v: int, hi: int) -> int {
    if v < 0 {
        0
    } else if v > hi {
        hi
    } else {
        v
    }
}

/// The last entity in `content` that is among `fighters`.
pub open spec fn last_combatant(content: Seq<u32>, fighters: Seq<u32>) -> Option<u32>
    decreases content.len(),
{
    if content.len() == 0 {
        None
    } else if fighters.contains(content.last()) {
        Some(content.last())
    } else {
        last_combatant(content.drop_last(), fighters)
    }
}

/// The player may step onto `(x, y)`: it is inside the grid and off its
/// first row and column.
pub open spec fn step_in_reach(map: &DungeonMap, x: int, y: int) -> bool {
    1 <= x <= map.width - 1 && 1 <= y <= map.height - 1
}

/// What a move attempt did: the entity it attacks, if any, and whether the
/// player moved.
#[derive(Clone, Copy, Debug, PartialEq, Eq, Structural)]
pub struct MoveOutcome {
    pub melee_target: Option<u32>,
    pub moved: bool,
}

fn contains_id(ids: &Vec<u32>, id: u32) -> (r: bool)
    ensures
        r == ids@.contains(id),
{
    let mut j: usize = 0;
    while j < ids.len()
        invariant
            j <= ids@.len(),
            forall|k: int| 0 <= k < j ==> ids@[k] != id,
        decreases ids@.len() - j,
    {
        if ids[j] == id {
            return true;
        }
        j = j + 1;
    }
    false
}

/// The player at `position` tries to step by `(delta_x, delta_y)`. A step
/// out of reach does nothing. Otherwise the player attacks the last entity
/// on the destination that has combat stats, if there is one, and stays
/// put; with no one to attack it moves there unless the destination is
/// blocked.
pub fn try_move_player(
    delta_x: i32,
    delta_y: i32,
    position: &mut Position,
    map: &DungeonMap,
    combatants: &Vec<u32>,
) -> (r: MoveOutcome)
    requires
        map.wf(),
        i32::MIN <= old(position).x + delta_x <= i32::MAX,
        i32::MIN <= old(position).y + delta_y <= i32::MAX,
    ensures
        !step_in_reach(map, old(position).x + delta_x, old(position).y + delta_y) ==> r
            == (MoveOutcome { melee_target: None, moved: false }) && *final(position) == *old(
            position,
        ),
        step_in_reach(map, old(position).x + delta_x, old(position).y + delta_y) ==> {
            let index = map.spec_index(old(position).x + delta_x, old(position).y + delta_y);
            &&& r.melee_target == last_combatant(map.tile_content@[index]@, combatants@)
            &&& r.moved == (!map.blocked@[index] && r.melee_target.is_none())
            &&& *final(position) == if r.moved {
                Position {
                    x: clamp_coord(old(position).x + delta_x, MAP_SIZE_X - 1) as i32,
                    y: clamp_coord(old(position).y + delta_y, MAP_SIZE_Y - 1) as i32,
                }
            } else {
                *old(position)
            }
        },
{
    let tx = position.x + delta_x;
    let ty = position.y + delta_y;
    if tx < 1 || tx > map.width - 1 || ty < 1 || ty > map.height - 1 {
        return MoveOutcome { melee_target: None, moved: false };
    }
    let destination_index = map.xy_index(tx, ty);
    let content = &map.tile_content[destination_index];
    let mut target: Option<u32> = None;
    let mut j: usize = 0;
    while j < content.len()
        invariant
            j <= content@.len(),
            target == last_combatant(content@.take(j as int), combatants@),
        decreases content@.len() - j,
    {
        if contains_id(combatants, content[j]) {
            target = Some(content[j]);
        }
        proof {
            let next = content@.take(j + 1);
            assert(next.drop_last() =~= content@.take(j as int));
            assert(next.last() == content@[j as int]);
        }
        j = j + 1;
    }
    proof {
        assert(content@.take(j as int) =~= content@);
    }
    let moved = target.is_none() && !map.blocked[destination_index];
    if moved {
        let cx = if tx < 0 { 0 } else if tx > MAP_SIZE_X - 1 { MAP_SIZE_X - 1 } else { tx };
        let cy = if ty < 0 { 0 } else if ty > MAP_SIZE_Y - 1 { MAP_SIZE_Y - 1 } else { ty };
        position.x = cx;
        position.y = cy;
    }
    MoveOutcome { melee_target: target, moved }
}

} // verus!
