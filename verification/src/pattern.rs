//! The piece geometry table.
//!
//! Every shape lives in a square box: 4x4 for `I` and `O`, 3x3 for the rest.
//! The model gives each shape once, in its spawn orientation, and derives the
//! other three orientations by quarter turns of the box. The lookup tables
//! that the engine reads at run time are proved equal to that model, cell by
//! cell.

use crate::common::{BlockRot, BlockType};
use vstd::prelude::*;

verus! {

/// Side length of the square box that holds the shape.
pub open spec fn box_size(t: BlockType) -> int {
    match t {
        BlockType::I | BlockType::O => 4,
        _ => 3,
    }
}

/// Whether column `x`, row `y` of the box is part of the shape in its spawn
/// orientation.
pub open spec fn base_cell(t: BlockType, x: int, y: int) -> bool {
    match t {
        BlockType::I => y == 1 && 0 <= x < 4,
        BlockType::O => 1 <= x <= 2 && 1 <= y <= 2,
        BlockType::T => (y == 0 && x == 1) || (y == 1 && 0 <= x < 3),
        BlockType::J => (y == 0 && x == 0) || (y == 1 && 0 <= x < 3),
        BlockType::L => (y == 0 && x == 2) || (y == 1 && 0 <= x < 3),
        BlockType::S => (y == 0 && 1 <= x <= 2) || (y == 1 && 0 <= x <= 1),
        BlockType::Z => (y == 0 && 0 <= x <= 1) || (y == 1 && 1 <= x <= 2),
    }
}

/// Whether the shape `t`, turned to `r`, covers column `x`, row `y` of its
/// box. Each rotation state is one clockwise quarter turn of the previous
/// one; positions outside the box are never covered.
pub open spec fn occupies(t: BlockType, r: BlockRot, x: int, y: int) -> bool {
    let n = box_size(t);
    0 <= x < n && 0 <= y < n && match r {
        BlockRot::Rot0 => base_cell(t, x, y),
        BlockRot::Rot1 => base_cell(t, y, n - 1 - x),
        BlockRot::Rot2 => base_cell(t, n - 1 - x, n - 1 - y),
        BlockRot::Rot3 => base_cell(t, n - 1 - y, x),
    }
}

/// The table entry that stands for a covered (1) or uncovered (0) cell.
pub open spec fn mask_bit(t: BlockType, r: BlockRot, x: int, y: int) -> int {
    if occupies(t, r, x, y) {
        1
    } else {
        0
    }
}

/// Position of a rotation state in the cycle `Rot0, Rot1, Rot2, Rot3`.
pub open spec fn rot_index(r: BlockRot) -> int {
    match r {
        BlockRot::Rot0 => 0,
        BlockRot::Rot1 => 1,
        BlockRot::Rot2 => 2,
        BlockRot::Rot3 => 3,
    }
}

/// The rotation state at position `i` of the cycle, for `0 <= i < 4`.
pub open spec fn rot_at(i: int) -> BlockRot {
    if i == 0 {
        BlockRot::Rot0
    } else if i == 1 {
        BlockRot::Rot1
    } else if i == 2 {
        BlockRot::Rot2
    } else {
        BlockRot::Rot3
    }
}

/// The rotation state reached from `r` by `k` clockwise quarter turns
/// (counter-clockwise for negative `k`).
pub open spec fn rotated(r: BlockRot, k: int) -> BlockRot {
    rot_at((rot_index(r) + k) % 4)
}

/// Steps a rotation state by `rot_change` quarter turns, one of -1, 0, +1.
pub fn next_rotation(current: BlockRot, rot_change: i32) -> (next: BlockRot)
    requires
        -1 <= rot_change <= 1,
    ensures
        next == rotated(current, rot_change as int),
{
    if rot_change == 0 {
        current
    } else if rot_change == 1 {
        match current {
            BlockRot::Rot0 => BlockRot::Rot1,
            BlockRot::Rot1 => BlockRot::Rot2,
            BlockRot::Rot2 => BlockRot::Rot3,
            BlockRot::Rot3 => BlockRot::Rot0,
        }
    } else {
        match current {
            BlockRot::Rot0 => BlockRot::Rot3,
            BlockRot::Rot1 => BlockRot::Rot0,
            BlockRot::Rot2 => BlockRot::Rot1,
            BlockRot::Rot3 => BlockRot::Rot2,
        }
    }
}

/// The mask of a shape whose box is 4x4, row by row.
pub fn pattern_4x4(b_type: &BlockType, b_rot: &BlockRot) -> (p: [[i32; 4]; 4])
    requires
        box_size(*b_type) == 4,
    ensures
        forall|x: int, y: int|
            0 <= x < 4 && 0 <= y < 4 ==> #[trigger] p[y][x] == mask_bit(*b_type, *b_rot, x, y),
{
    match b_type {
        BlockType::I => match b_rot {
            BlockRot::Rot0 => [
                [0, 0, 0, 0],  //
                [1, 1, 1, 1],
                [0, 0, 0, 0],
                [0, 0, 0, 0],
            ],
            BlockRot::Rot1 => [
                [0, 0, 1, 0],  //
                [0, 0, 1, 0],
                [0, 0, 1, 0],
                [0, 0, 1, 0],
            ],
            BlockRot::Rot2 => [
                [0, 0, 0, 0],  //
                [0, 0, 0, 0],
                [1, 1, 1, 1],
                [0, 0, 0, 0],
            ],
            BlockRot::Rot3 => [
                [0, 1, 0, 0],  //
                [0, 1, 0, 0],
                [0, 1, 0, 0],
                [0, 1, 0, 0],
            ],
        },
        // `O`, which every quarter turn maps onto itself. The box size rules
        // out the five 3x3 shapes.
        _ => [
            [0, 0, 0, 0],  //
            [0, 1, 1, 0],
            [0, 1, 1, 0],
            [0, 0, 0, 0],
        ],
    }
}

/// The mask of a shape whose box is 3x3, row by row.
pub fn pattern_3x3(b_type: &BlockType, b_rot: &BlockRot) -> (p: [[i32; 3]; 3])
    requires
        box_size(*b_type) == 3,
    ensures
        forall|x: int, y: int|
            0 <= x < 3 && 0 <= y < 3 ==> #[trigger] p[y][x] == mask_bit(*b_type, *b_rot, x, y),
{
    match b_type {
        BlockType::T => match b_rot {
            BlockRot::Rot0 => [
                [0, 1, 0],  //
                [1, 1, 1],
                [0, 0, 0],
            ],
            BlockRot::Rot1 => [
                [0, 1, 0],  //
                [0, 1, 1],
                [0, 1, 0],
            ],
            BlockRot::Rot2 => [
                [0, 0, 0],  //
                [1, 1, 1],
                [0, 1, 0],
            ],
            BlockRot::Rot3 => [
                [0, 1, 0],  //
                [1, 1, 0],
                [0, 1, 0],
            ],
        },
        BlockType::J => match b_rot {
            BlockRot::Rot0 => [
                [1, 0, 0],  //
                [1, 1, 1],
                [0, 0, 0],
            ],
            BlockRot::Rot1 => [
                [0, 1, 1],  //
                [0, 1, 0],
                [0, 1, 0],
            ],
            BlockRot::Rot2 => [
                [0, 0, 0],  //
                [1, 1, 1],
                [0, 0, 1],
            ],
            BlockRot::Rot3 => [
                [0, 1, 0],  //
                [0, 1, 0],
                [1, 1, 0],
            ],
        },
        BlockType::L => match b_rot {
            BlockRot::Rot0 => [
                [0, 0, 1],  //
                [1, 1, 1],
                [0, 0, 0],
            ],
            BlockRot::Rot1 => [
                [0, 1, 0],  //
                [0, 1, 0],
                [0, 1, 1],
            ],
            BlockRot::Rot2 => [
                [0, 0, 0],  //
                [1, 1, 1],
                [1, 0, 0],
            ],
            BlockRot::Rot3 => [
                [1, 1, 0],  //
                [0, 1, 0],
                [0, 1, 0],
            ],
        },
        BlockType::S => match b_rot {
            BlockRot::Rot0 => [
                [0, 1, 1],  //
                [1, 1, 0],
                [0, 0, 0],
            ],
            BlockRot::Rot1 => [
                [0, 1, 0],  //
                [0, 1, 1],
                [0, 0, 1],
            ],
            BlockRot::Rot2 => [
                [0, 0, 0],  //
                [0, 1, 1],
                [1, 1, 0],
            ],
            BlockRot::Rot3 => [
                [1, 0, 0],  //
                [1, 1, 0],
                [0, 1, 0],
            ],
        },
        // `Z`. The box size rules out `I` and `O`.
        _ => match b_rot {
            BlockRot::Rot0 => [
                [1, 1, 0],  //
                [0, 1, 1],
                [0, 0, 0],
            ],
            BlockRot::Rot1 => [
                [0, 0, 1],  //
                [0, 1, 1],
                [0, 1, 0],
            ],
            BlockRot::Rot2 => [
                [0, 0, 0],  //
                [1, 1, 0],
                [0, 1, 1],
            ],
            BlockRot::Rot3 => [
                [0, 1, 0],  //
                [1, 1, 0],
                [1, 0, 0],
            ],
        },
    }
}

/// The mask of any shape in a uniform 4x4 window, row by row. A 3x3 box sits
/// in the window's top-left corner; the fourth row and column stay empty.
pub fn tetromino(b_type: &BlockType, b_rot: &BlockRot) -> (p: [[i32; 4]; 4])
    ensures
        forall|x: int, y: int|
            0 <= x < 4 && 0 <= y < 4 ==> #[trigger] p[y][x] == mask_bit(*b_type, *b_rot, x, y),
{
    match b_type {
        BlockType::I => match b_rot {
            BlockRot::Rot0 => [
                [0, 0, 0, 0],  //
                [1, 1, 1, 1],
                [0, 0, 0, 0],
                [0, 0, 0, 0],
            ],
            BlockRot::Rot1 => [
                [0, 0, 1, 0],  //
                [0, 0, 1, 0],
                [0, 0, 1, 0],
                [0, 0, 1, 0],
            ],
            BlockRot::Rot2 => [
                [0, 0, 0, 0],  //
                [0, 0, 0, 0],
                [1, 1, 1, 1],
                [0, 0, 0, 0],
            ],
            BlockRot::Rot3 => [
                [0, 1, 0, 0],  //
                [0, 1, 0, 0],
                [0, 1, 0, 0],
                [0, 1, 0, 0],
            ],
        },
        BlockType::O => [
            [0, 0, 0, 0],  //
            [0, 1, 1, 0],
            [0, 1, 1, 0],
            [0, 0, 0, 0],
        ],
        BlockType::T => match b_rot {
            BlockRot::Rot0 => [
                [0, 1, 0, 0],  //
                [1, 1, 1, 0],
                [0, 0, 0, 0],
                [0, 0, 0, 0],
            ],
            BlockRot::Rot1 => [
                [0, 1, 0, 0],  //
                [0, 1, 1, 0],
                [0, 1, 0, 0],
                [0, 0, 0, 0],
            ],
            BlockRot::Rot2 => [
                [0, 0, 0, 0],  //
                [1, 1, 1, 0],
                [0, 1, 0, 0],
                [0, 0, 0, 0],
            ],
            BlockRot::Rot3 => [
                [0, 1, 0, 0],  //
                [1, 1, 0, 0],
                [0, 1, 0, 0],
                [0, 0, 0, 0],
            ],
        },
        BlockType::J => match b_rot {
            BlockRot::Rot0 => [
                [1, 0, 0, 0],  //
                [1, 1, 1, 0],
                [0, 0, 0, 0],
                [0, 0, 0, 0],
            ],
            BlockRot::Rot1 => [
                [0, 1, 1, 0],  //
                [0, 1, 0, 0],
                [0, 1, 0, 0],
                [0, 0, 0, 0],
            ],
            BlockRot::Rot2 => [
                [0, 0, 0, 0],  //
                [1, 1, 1, 0],
                [0, 0, 1, 0],
                [0, 0, 0, 0],
            ],
            BlockRot::Rot3 => [
                [0, 1, 0, 0],  //
                [0, 1, 0, 0],
                [1, 1, 0, 0],
                [0, 0, 0, 0],
            ],
        },
        BlockType::L => match b_rot {
            BlockRot::Rot0 => [
                [0, 0, 1, 0],  //
                [1, 1, 1, 0],
                [0, 0, 0, 0],
                [0, 0, 0, 0],
            ],
            BlockRot::Rot1 => [
                [0, 1, 0, 0],  //
                [0, 1, 0, 0],
                [0, 1, 1, 0],
                [0, 0, 0, 0],
            ],
            BlockRot::Rot2 => [
                [0, 0, 0, 0],  //
                [1, 1, 1, 0],
                [1, 0, 0, 0],
                [0, 0, 0, 0],
            ],
            BlockRot::Rot3 => [
                [1, 1, 0, 0],  //
                [0, 1, 0, 0],
                [0, 1, 0, 0],
                [0, 0, 0, 0],
            ],
        },
        BlockType::S => match b_rot {
            BlockRot::Rot0 => [
                [0, 1, 1, 0],  //
                [1, 1, 0, 0],
                [0, 0, 0, 0],
                [0, 0, 0, 0],
            ],
            BlockRot::Rot1 => [
                [0, 1, 0, 0],  //
                [0, 1, 1, 0],
                [0, 0, 1, 0],
                [0, 0, 0, 0],
            ],
            BlockRot::Rot2 => [
                [0, 0, 0, 0],  //
                [0, 1, 1, 0],
                [1, 1, 0, 0],
                [0, 0, 0, 0],
            ],
            BlockRot::Rot3 => [
                [1, 0, 0, 0],  //
                [1, 1, 0, 0],
                [0, 1, 0, 0],
                [0, 0, 0, 0],
            ],
        },
        BlockType::Z => match b_rot {
            BlockRot::Rot0 => [
                [1, 1, 0, 0],  //
                [0, 1, 1, 0],
                [0, 0, 0, 0],
                [0, 0, 0, 0],
            ],
            BlockRot::Rot1 => [
                [0, 0, 1, 0],  //
                [0, 1, 1, 0],
                [0, 1, 0, 0],
                [0, 0, 0, 0],
            ],
            BlockRot::Rot2 => [
                [0, 0, 0, 0],  //
                [1, 1, 0, 0],
                [0, 1, 1, 0],
                [0, 0, 0, 0],
            ],
            BlockRot::Rot3 => [
                [0, 1, 0, 0],  //
                [1, 1, 0, 0],
                [1, 0, 0, 0],
                [0, 0, 0, 0],
            ],
        },
    }
}

/// Whether the shape covers column `x`, row `y` of its box. Positions outside
/// the box, negative ones included, are never covered, so a caller may scan a
/// fixed 4x4 window whatever the shape.
pub fn probe(block_type: &BlockType, block_rot: &BlockRot, x: i32, y: i32) -> (hit: bool)
    ensures
        hit == occupies(*block_type, *block_rot, x as int, y as int),
{
    if x < 0 || y < 0 {
        return false;
    }
    match block_type {
        BlockType::I | BlockType::O => {
            x < 4 && y < 4 && pattern_4x4(block_type, block_rot)[y as usize][x as usize] == 1
        },
        BlockType::T | BlockType::J | BlockType::L | BlockType::S | BlockType::Z => {
            x < 3 && y < 3 && pattern_3x3(block_type, block_rot)[y as usize][x as usize] == 1
        },
    }
}

} // verus!
