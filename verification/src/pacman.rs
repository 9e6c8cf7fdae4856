use vstd::prelude::*;

use crate::common::{Direction, Movement, Position};
use crate::ghosts::target_set_strategy::has_field_of_type;
use crate::map::field_board::FieldBoard;
use crate::map::pacmap::FieldType;

verus! {

/// Where pacman stands after walking through the tunnels `right` and `left`: leaving the right
/// tunnel to the right he comes out of the left one, and the other way round.
pub open spec fn through_tunnel(movement: Movement, position: Position, right: Position, left: Position) -> Position {
    match movement {
        Movement::Moving(Direction::Right) => if position == right {
            left
        } else {
            position
        },
        Movement::Moving(Direction::Left) => if position == left {
            right
        } else {
            position
        },
        _ => position,
    }
}

/// Move pacman to the other tunnel when he walks out of one.
pub fn walk_through_tunnel(board: &FieldBoard, movement: &Movement, position: &mut Position)
    requires
        has_field_of_type(board.position_type_map@, FieldType::RightTunnel),
        has_field_of_type(board.position_type_map@, FieldType::LeftTunnel),
    ensures
        exists|right: Position, left: Position|
            {
                &&& board.position_type_map@.contains_key(right)
                &&& board.position_type_map@[right] == FieldType::RightTunnel
                &&& board.position_type_map@.contains_key(left)
                &&& board.position_type_map@[left] == FieldType::LeftTunnel
                &&& *final(position) == #[trigger] through_tunnel(*movement, *old(position), right, left)
            },
{
    let right_tunnel_position = board.position_of_type(FieldType::RightTunnel);
    let left_tunnel_position = board.position_of_type(FieldType::LeftTunnel);
    match movement {
        Movement::Moving(Direction::Right) => {
            if *position == right_tunnel_position {
                *position = left_tunnel_position;
            }
        },
        Movement::Moving(Direction::Left) => {
            if *position == left_tunnel_position {
                *position = right_tunnel_position;
            }
        },
        _ => {},
    }
    assert(*position == through_tunnel(*movement, *old(position), right_tunnel_position, left_tunnel_position));
}

/// The movement the arrow keys ask for: down wins over up, up over right, right over left; with no
/// key pressed pacman keeps his movement.
pub open spec fn movement_for_keys(current: Movement, left: bool, right: bool, up: bool, down: bool) -> Movement {
    if down {
        Movement::Moving(Direction::Down)
    } else if up {
        Movement::Moving(Direction::Up)
    } else if right {
        Movement::Moving(Direction::Right)
    } else if left {
        Movement::Moving(Direction::Left)
    } else {
        current
    }
}

/// Let pacman move in the direction of the pressed arrow keys.
pub fn set_direction(movement: &mut Movement, left: bool, right: bool, up: bool, down: bool)
    ensures
        *final(movement) == movement_for_keys(*old(movement), left, right, up, down),
        !left && !right && !up && !down ==> *final(movement) == *old(movement),
        down ==> *final(movement) == Movement::Moving(Direction::Down),
        up && !down ==> *final(movement) == Movement::Moving(Direction::Up),
        right && !up && !down ==> *final(movement) == Movement::Moving(Direction::Right),
        left && !right && !up && !down ==> *final(movement) == Movement::Moving(Direction::Left),
{
    if left {
        *movement = Movement::Moving(Direction::Left);
    }
    if right {
        *movement = Movement::Moving(Direction::Right);
    }
    if up {
        *movement = Movement::Moving(Direction::Up);
    }
    if down {
        *movement = Movement::Moving(Direction::Down);
    }
}

/// The arrow keys steer pacman: with exactly one key pressed he moves in its direction, with none
/// he keeps his movement, and of several keys the one checked last wins (down, then up, then
/// right, then left).
pub proof fn lemma_arrow_keys_steer(current: Movement, left: bool, right: bool, up: bool, down: bool)
    ensures
        movement_for_keys(current, true, false, false, false) == Movement::Moving(Direction::Left),
        movement_for_keys(current, false, true, false, false) == Movement::Moving(Direction::Right),
        movement_for_keys(current, false, false, true, false) == Movement::Moving(Direction::Up),
        movement_for_keys(current, false, false, false, true) == Movement::Moving(Direction::Down),
        movement_for_keys(current, false, false, false, false) == current,
        down ==> movement_for_keys(current, left, right, up, down) == Movement::Moving(Direction::Down),
        up && !down ==> movement_for_keys(current, left, right, up, down) == Movement::Moving(Direction::Up),
        right && !up && !down ==> movement_for_keys(current, left, right, up, down) == Movement::Moving(Direction::Right),
        left && !right && !up && !down ==> movement_for_keys(current, left, right, up, down) == Movement::Moving(
            Direction::Left,
        ),
{
}

} // verus!
