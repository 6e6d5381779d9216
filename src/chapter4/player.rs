use vstd::prelude::*;

use crate::chapter4::map::xy_index;
use crate::components::Position;
use crate::map::{grid_index, TileType, MAP_SIZE_X, MAP_SIZE_Y};
use crate::player::{clamp_coord, InputKey};

verus! {

/// Moves the player at `position` by `(delta_x, delta_y)` on the arena,
/// unless the destination is a wall; the result is held to the grid.
pub fn try_move_player(delta_x: i32, delta_y: i32, position: &mut Position, map: &Vec<TileType>)
    requires
        0 <= old(position).x + delta_x <= i32::MAX,
        0 <= old(position).y + delta_y <= i32::MAX,
        grid_index(
            MAP_SIZE_X as int,
            old(position).x + delta_x,
            old(position).y + delta_y,
        ) < map@.len(),
    ensures
        ({
            let index = grid_index(
                MAP_SIZE_X as int,
                old(position).x + delta_x,
                old(position).y + delta_y,
            );
            *final(position) == if map@[index] != TileType::Wall {
                Position {
                    x: clamp_coord(old(position).x + delta_x, MAP_SIZE_X - 1) as i32,
                    y: clamp_coord(old(position).y + delta_y, MAP_SIZE_Y - 1) as i32,
                }
            } else {
                *old(position)
            }
        }),
{
    let tx = position.x + delta_x;
    let ty = position.y + delta_y;
    proof {
        assert(map.len() == map@.len());
    }
    let destination_index = xy_index(tx, ty);
    if map[destination_index] != TileType::Wall {
        position.x = if tx > MAP_SIZE_X - 1 { MAP_SIZE_X - 1 } else { tx };
        position.y = if ty > MAP_SIZE_Y - 1 { MAP_SIZE_Y - 1 } else { ty };
    }
}

/// The step that a key asks for in the arena: the four arrows only.
pub open spec fn arrow_step(key: InputKey) -> Option<(i32, i32)> {
    match key {
        InputKey::Left => Some((-1i32, 0i32)),
        InputKey::Right => Some((1i32, 0i32)),
        InputKey::Up => Some((0i32, -1i32)),
        InputKey::Down => Some((0i32, 1i32)),
        _ => None,
    }
}

/// The step to try for the key pressed this frame, if it is an arrow.
pub fn player_input(key: Option<InputKey>) -> (r: Option<(i32, i32)>)
    ensures
        key.is_none() ==> r.is_none(),
        key.is_some() ==> r == arrow_step(key.unwrap()),
{
    match key {
        None => None,
        Some(k) => match k {
            InputKey::Left => Some((-1, 0)),
            InputKey::Right => Some((1, 0)),
            InputKey::Up => Some((0, -1)),
            InputKey::Down => Some((0, 1)),
            _ => None,
        },
    }
}

} // verus!
