//! How held inputs move a player, one fixed step at a time.

use crate::protocol::clamp;
use crate::protocol::clamp_coord;
use crate::protocol::ActionState;
use crate::protocol::Inputs;
use crate::protocol::Point;
use crate::protocol::Position;
use vstd::prelude::*;

verus! {

/// How far one held direction moves a player in one step.
pub const MOVE_SPEED: i32 = 10;

/// The displacement along one axis: one step for the forward input, one
/// step back for the backward input, both if both are held.
pub open spec fn axis_delta(forward: bool, backward: bool) -> int {
    (if forward {
        MOVE_SPEED as int
    } else {
        0
    }) - (if backward {
        MOVE_SPEED as int
    } else {
        0
    })
}

/// The position after one step under `input`: the sum of the displacements
/// of the held directions, not normalised, held inside the grid.
pub open spec fn moved(position: Position, input: ActionState) -> Position {
    Position(
        Point {
            x: clamp_coord(
                position.0.x + axis_delta(
                    input.is_pressed(Inputs::Right),
                    input.is_pressed(Inputs::Left),
                ),
            ) as i32,
            y: clamp_coord(
                position.0.y + axis_delta(
                    input.is_pressed(Inputs::Up),
                    input.is_pressed(Inputs::Down),
                ),
            ) as i32,
        },
    )
}

/// With no direction held, or with opposite directions held, a player stays
/// where it is.
pub proof fn lemma_balanced_input_stays(position: Position, input: ActionState)
    requires
        input.is_pressed(Inputs::Right) == input.is_pressed(Inputs::Left),
        input.is_pressed(Inputs::Up) == input.is_pressed(Inputs::Down),
    ensures
        moved(position, input) == position,
{
}

fn axis(forward: bool, backward: bool) -> (delta: i64)
    ensures
        delta == axis_delta(forward, backward),
{
    let mut delta: i64 = 0;
    if forward {
        delta = delta + MOVE_SPEED as i64;
    }
    if backward {
        delta = delta - MOVE_SPEED as i64;
    }
    delta
}

/// Moves a player by one step.
pub fn shared_movement_behaviour(position: &mut Position, input: &ActionState)
    ensures
        *final(position) == moved(*old(position), *input),
{
    let dx = axis(input.pressed(Inputs::Right), input.pressed(Inputs::Left));
    let dy = axis(input.pressed(Inputs::Up), input.pressed(Inputs::Down));
    let x = clamp(position.0.x as i64 + dx);
    let y = clamp(position.0.y as i64 + dy);
    position.0 = Point { x, y };
}

} // verus!
