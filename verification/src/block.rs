//! A piece: a shape, a rotation state, the board position of the top-left
//! corner of its mask window, and the color it leaves behind when it locks.
//!
//! Moving and turning a piece never looks at a board. Whether the result is
//! a legal placement is for the caller to decide with `Board::collides`.

use crate::common::{BlockRot, BlockType, CellVal, BOARD_DIM_X};
use crate::pattern::{next_rotation, occupies, probe, rotated};
use vstd::prelude::*;

verus! {

/// Column at which a fresh piece's mask window starts: half the board width
/// less two.
pub const SPAWN_X: i32 = 3;

/// Row at which a fresh piece's mask window starts.
pub const SPAWN_Y: i32 = 0;

#[derive(Copy, Clone, Debug, PartialEq, Eq)]
pub struct Block {
    pub block_type: BlockType,
    pub rotation: BlockRot,
    pub pos: (i32, i32),
    pub color: CellVal,
}

impl Block {
    /// A piece is well formed when the color it would lock into a grid is a
    /// locked color.
    pub open spec fn wf(self) -> bool {
        self.color.is_color()
    }

    /// Whether the piece covers column `x`, row `y` of its mask window.
    pub open spec fn occupies(self, x: int, y: int) -> bool {
        occupies(self.block_type, self.rotation, x, y)
    }

    /// Whether the piece covers the board position `(bx, by)`.
    pub open spec fn covers(self, bx: int, by: int) -> bool {
        self.occupies(bx - self.pos.0, by - self.pos.1)
    }

    /// Whether the offset moved by `(dx, dy)` is still representable.
    pub open spec fn can_move(self, dx: int, dy: int) -> bool {
        &&& i32::MIN <= self.pos.0 + dx <= i32::MAX
        &&& i32::MIN <= self.pos.1 + dy <= i32::MAX
    }

    /// The piece with its offset moved by `(dx, dy)`.
    pub open spec fn moved(self, dx: int, dy: int) -> Block
        recommends
            self.can_move(dx, dy),
    {
        Block { pos: ((self.pos.0 + dx) as i32, (self.pos.1 + dy) as i32), ..self }
    }

    /// The piece after `k` clockwise quarter turns.
    pub open spec fn turned(self, k: int) -> Block {
        Block { rotation: rotated(self.rotation, k), ..self }
    }

    /// A piece in spawn state: unrotated, at the spawn offset, well formed.
    pub open spec fn is_fresh(self) -> bool {
        &&& self.rotation == BlockRot::Rot0
        &&& self.pos == (SPAWN_X, SPAWN_Y)
        &&& self.wf()
    }

    /// The spawn-state piece that has the shape and color of `other`.
    pub open spec fn respawned_as(other: Block) -> Block {
        Block {
            block_type: other.block_type,
            rotation: BlockRot::Rot0,
            pos: (SPAWN_X, SPAWN_Y),
            color: other.color,
        }
    }

    /// A piece in spawn state with a randomly drawn shape and color.
    pub fn rand() -> (block: Block)
        ensures
            block.is_fresh(),
    {
        let mut block = Block {
            block_type: BlockType::I,
            color: CellVal::Free,
            rotation: BlockRot::Rot0,
            pos: (0, 0),
        };
        block.replace_random();
        block
    }

    /// The content of column `x`, row `y` of the mask window: the piece's
    /// color where it covers the cell, `Free` elsewhere.
    pub fn probe_value(&self, x: i32, y: i32) -> (val: &CellVal)
        ensures
            *val == (if self.occupies(x as int, y as int) {
                self.color
            } else {
                CellVal::Free
            }),
    {
        if self.probe(x, y) {
            &self.color
        } else {
            &CellVal::Free
        }
    }

    /// The board position of column `x`, row `y` of the mask window.
    pub fn pos_to_board_pos(&self, x: i32, y: i32) -> (at: (i32, i32))
        requires
            self.can_move(x as int, y as int),
        ensures
            at.0 == self.pos.0 + x,
            at.1 == self.pos.1 + y,
    {
        (self.pos.0 + x, self.pos.1 + y)
    }

    /// The color that this piece leaves behind when it locks.
    pub fn color(&self) -> (c: &CellVal)
        ensures
            *c == self.color,
    {
        &self.color
    }

    /// Moves the piece by `x` columns. Nothing is checked against a board.
    pub fn move_horizontally(&mut self, x: i32)
        requires
            old(self).can_move(x as int, 0),
        ensures
            *final(self) == old(self).moved(x as int, 0),
    {
        self.pos = (self.pos.0 + x, self.pos.1);
    }

    /// Moves the piece by `y` rows. Nothing is checked against a board.
    pub fn move_vertically(&mut self, y: i32)
        requires
            old(self).can_move(0, y as int),
        ensures
            *final(self) == old(self).moved(0, y as int),
    {
        self.pos = (self.pos.0, self.pos.1 + y);
    }

    /// Turns the piece by one quarter turn: clockwise for `r == 1`,
    /// counter-clockwise for `r == -1`. Nothing is checked against a board.
    pub fn rotate(&mut self, r: i32)
        requires
            r == 1 || r == -1,
        ensures
            *final(self) == old(self).turned(r as int),
    {
        self.rotation = next_rotation(self.rotation, r);
    }

    /// Whether the piece covers column `x`, row `y` of its mask window.
    pub fn probe(&self, x: i32, y: i32) -> (hit: bool)
        ensures
            hit == self.occupies(x as int, y as int),
    {
        probe(&self.block_type, &self.rotation, x, y)
    }

    /// Takes over the shape and color of `other` and returns to spawn state.
    pub fn replace(&mut self, other: &Block)
        ensures
            *final(self) == Block::respawned_as(*other),
    {
        self.block_type = other.block_type;
        self.color = other.color;
        self.rotation = BlockRot::Rot0;
        self.pos = (SPAWN_X, SPAWN_Y);
    }

    /// Takes a randomly drawn shape and color and returns to spawn state.
    pub fn replace_random(&mut self)
        ensures
            final(self).is_fresh(),
    {
        self.block_type = BlockType::rand();
        self.color = CellVal::rand_color();
        self.rotation = BlockRot::Rot0;
        self.pos = (SPAWN_X, SPAWN_Y);
    }
}

/// The spawn column is half the board width less two.
pub proof fn lemma_spawn_column()
    ensures
        SPAWN_X == BOARD_DIM_X as int / 2 - 2,
{
}

/// Undoing a translation restores the piece exactly: moving by `(dx, dy)`
/// and then by `(-dx, -dy)` gives back the piece that one started from.
pub proof fn lemma_translate_undo(p: Block, dx: int, dy: int)
    requires
        p.can_move(dx, dy),
    ensures
        p.moved(dx, dy).can_move(-dx, -dy),
        p.moved(dx, dy).moved(-dx, -dy) == p,
{
}

/// Rotation is cyclic of order four. Four quarter turns in the same
/// direction give back the piece that one started from, and with it the same
/// covered cells; a quarter turn followed by the opposite one does too.
pub proof fn lemma_rotation_cycle(p: Block)
    ensures
        p.turned(1).turned(1).turned(1).turned(1) == p,
        p.turned(-1).turned(-1).turned(-1).turned(-1) == p,
        p.turned(1).turned(-1) == p,
        p.turned(-1).turned(1) == p,
        p.turned(1) != p,
        p.turned(1).turned(1) != p,
        p.turned(1).turned(1).turned(1) != p,
        forall|x: int, y: int|
            p.turned(1).turned(1).turned(1).turned(1).occupies(x, y) == p.occupies(x, y),
{
}

} // verus!
