//! Leaf types shared by every layer: cell values, piece shapes, rotation
//! states, player inputs and the running statistics.

use crate::random::random_below;
use vstd::prelude::*;

verus! {

/// Columns of the grid.
pub const BOARD_DIM_X: usize = 10;

/// Rows of the grid.
pub const BOARD_DIM_Y: usize = 20;

/// Number of distinct locked colors.
pub const COLOR_COUNT: i32 = 8;

/// Number of distinct piece shapes.
pub const BLOCK_TYPE_COUNT: i32 = 7;

/// What one grid position, or one cell of a piece's mask window, holds.
///
/// `OutOfBoard` is an answer to a query about a position outside the grid;
/// it is never stored in a grid.
#[derive(Copy, Clone, Debug, PartialEq, Eq, Structural)]
pub enum CellVal {
    Free,
    OutOfBoard,
    Color1,
    Color2,
    Color3,
    Color4,
    Color5,
    Color6,
    Color7,
    Color8,
}

impl CellVal {
    /// A locked color: neither `Free` nor the out-of-board sentinel.
    pub open spec fn spec_is_color(self) -> bool {
        self != CellVal::Free && self != CellVal::OutOfBoard
    }

    /// The color that a draw `n` selects. Draws `0..=6` select `Color1` to
    /// `Color7`; every other integer selects `Color8`.
    pub open spec fn spec_from_index(n: int) -> CellVal {
        if n == 0 {
            CellVal::Color1
        } else if n == 1 {
            CellVal::Color2
        } else if n == 2 {
            CellVal::Color3
        } else if n == 3 {
            CellVal::Color4
        } else if n == 4 {
            CellVal::Color5
        } else if n == 5 {
            CellVal::Color6
        } else if n == 6 {
            CellVal::Color7
        } else {
            CellVal::Color8
        }
    }

    #[verifier::when_used_as_spec(spec_is_color)]
    pub fn is_color(self) -> (b: bool)
        ensures
            b == self.spec_is_color(),
    {
        match self {
            CellVal::Free => false,
            CellVal::OutOfBoard => false,
            _ => true,
        }
    }

    /// Maps a draw to a color; see [`CellVal::spec_from_index`].
    pub fn from_index(n: i32) -> (c: CellVal)
        ensures
            c == CellVal::spec_from_index(n as int),
            c.is_color(),
    {
        match n {
            0 => CellVal::Color1,
            1 => CellVal::Color2,
            2 => CellVal::Color3,
            3 => CellVal::Color4,
            4 => CellVal::Color5,
            5 => CellVal::Color6,
            6 => CellVal::Color7,
            _ => CellVal::Color8,
        }
    }

    /// A color chosen by one draw from `[0, COLOR_COUNT)`. Which color comes
    /// back is not determined; it is always a locked color.
    pub fn rand_color() -> (c: CellVal)
        ensures
            c.is_color(),
            exists|n: int| 0 <= n < COLOR_COUNT && c == #[trigger] CellVal::spec_from_index(n),
    {
        let n: i32 = random_below(COLOR_COUNT);
        CellVal::from_index(n)
    }
}

/// The seven piece shapes.
#[derive(Copy, Clone, Debug, PartialEq, Eq, Structural)]
pub enum BlockType {
    I,
    O,
    T,
    J,
    L,
    S,
    Z,
}

impl BlockType {
    /// The shape that a draw `n` selects. Draws `0..=5` select `I`, `O`, `T`,
    /// `J`, `L`, `S`; every other integer selects `Z`.
    pub open spec fn spec_from_index(n: int) -> BlockType {
        if n == 0 {
            BlockType::I
        } else if n == 1 {
            BlockType::O
        } else if n == 2 {
            BlockType::T
        } else if n == 3 {
            BlockType::J
        } else if n == 4 {
            BlockType::L
        } else if n == 5 {
            BlockType::S
        } else {
            BlockType::Z
        }
    }

    /// Maps a draw to a shape; see [`BlockType::spec_from_index`].
    pub fn from_index(n: i32) -> (t: BlockType)
        ensures
            t == BlockType::spec_from_index(n as int),
    {
        match n {
            0 => BlockType::I,
            1 => BlockType::O,
            2 => BlockType::T,
            3 => BlockType::J,
            4 => BlockType::L,
            5 => BlockType::S,
            _ => BlockType::Z,
        }
    }

    /// A shape chosen by one draw from `[0, BLOCK_TYPE_COUNT)`.
    pub fn rand() -> (t: BlockType)
        ensures
            exists|n: int| 0 <= n < BLOCK_TYPE_COUNT && t == #[trigger] BlockType::spec_from_index(n),
    {
        let n: i32 = random_below(BLOCK_TYPE_COUNT);
        BlockType::from_index(n)
    }
}

/// The four rotation states, cyclic under stepping.
#[derive(Copy, Clone, Debug, PartialEq, Eq, Structural)]
pub enum BlockRot {
    Rot0,
    Rot1,
    Rot2,
    Rot3,
}

/// One player input per engine step. `NoInput` advances time only.
#[derive(Copy, Clone, Debug, PartialEq, Eq, Structural)]
pub enum UserInput {
    MoveLeft,
    MoveRight,
    MoveDown,
    DropDown,
    RotateLeft,
    RotateRight,
    Reset,
    NoInput,
}

/// Running counters of cleared rows. `cleared` is the total number of rows
/// removed; `clr_cmb_n` counts the locks that removed exactly `n` rows.
#[derive(Copy, Clone, Debug, PartialEq, Eq, Structural)]
pub struct Stats {
    pub cleared: i32,
    pub clr_cmb_4: i32,
    pub clr_cmb_3: i32,
    pub clr_cmb_2: i32,
    pub clr_cmb_1: i32,
}

impl Stats {
    /// The statistics of a new game: every counter is zero.
    pub open spec fn zero() -> Stats {
        Stats { cleared: 0, clr_cmb_4: 0, clr_cmb_3: 0, clr_cmb_2: 0, clr_cmb_1: 0 }
    }

    /// Whether a lock that removed `n` rows can be recorded without a counter
    /// leaving its range. A lock that removed no row records nothing.
    pub open spec fn takes(self, n: int) -> bool {
        if n == 1 {
            self.cleared <= i32::MAX - 1 && self.clr_cmb_1 < i32::MAX
        } else if n == 2 {
            self.cleared <= i32::MAX - 2 && self.clr_cmb_2 < i32::MAX
        } else if n == 3 {
            self.cleared <= i32::MAX - 3 && self.clr_cmb_3 < i32::MAX
        } else if n == 4 {
            self.cleared <= i32::MAX - 4 && self.clr_cmb_4 < i32::MAX
        } else {
            true
        }
    }

    /// Whether one more lock can be recorded, whatever it clears, without a
    /// counter leaving its range.
    pub open spec fn spec_has_room(&self) -> bool {
        &&& self.cleared <= i32::MAX - 4
        &&& self.clr_cmb_4 < i32::MAX
        &&& self.clr_cmb_3 < i32::MAX
        &&& self.clr_cmb_2 < i32::MAX
        &&& self.clr_cmb_1 < i32::MAX
    }

    /// The statistics after a lock that removed `n` rows: `n` is added to the
    /// total and the counter for `n` goes up by one. A lock that removed no
    /// row leaves the statistics as they are.
    pub open spec fn with_rows(self, n: int) -> Stats
        recommends
            0 <= n <= 4,
            self.takes(n),
    {
        if n == 1 {
            Stats { cleared: (self.cleared + 1) as i32, clr_cmb_1: (self.clr_cmb_1 + 1) as i32, ..self }
        } else if n == 2 {
            Stats { cleared: (self.cleared + 2) as i32, clr_cmb_2: (self.clr_cmb_2 + 1) as i32, ..self }
        } else if n == 3 {
            Stats { cleared: (self.cleared + 3) as i32, clr_cmb_3: (self.clr_cmb_3 + 1) as i32, ..self }
        } else if n == 4 {
            Stats { cleared: (self.cleared + 4) as i32, clr_cmb_4: (self.clr_cmb_4 + 1) as i32, ..self }
        } else {
            self
        }
    }

    pub fn new() -> (stats: Stats)
        ensures
            stats == Stats::zero(),
    {
        Stats { cleared: 0, clr_cmb_4: 0, clr_cmb_3: 0, clr_cmb_2: 0, clr_cmb_1: 0 }
    }

    /// Sets every counter back to zero.
    pub fn reset(&mut self)
        ensures
            *final(self) == Stats::zero(),
    {
        self.cleared = 0;
        self.clr_cmb_4 = 0;
        self.clr_cmb_3 = 0;
        self.clr_cmb_2 = 0;
        self.clr_cmb_1 = 0;
    }

    /// Whether a lock that removed `n` rows can be recorded: see
    /// [`Stats::takes`].
    pub fn can_take(&self, n: i32) -> (ok: bool)
        ensures
            ok == self.takes(n as int),
    {
        if n == 1 {
            self.cleared <= i32::MAX - 1 && self.clr_cmb_1 < i32::MAX
        } else if n == 2 {
            self.cleared <= i32::MAX - 2 && self.clr_cmb_2 < i32::MAX
        } else if n == 3 {
            self.cleared <= i32::MAX - 3 && self.clr_cmb_3 < i32::MAX
        } else if n == 4 {
            self.cleared <= i32::MAX - 4 && self.clr_cmb_4 < i32::MAX
        } else {
            true
        }
    }

    #[verifier::when_used_as_spec(spec_has_room)]
    pub fn has_room(&self) -> (room: bool)
        ensures
            room == self.spec_has_room(),
    {
        self.cleared <= i32::MAX - 4 && self.clr_cmb_4 < i32::MAX && self.clr_cmb_3 < i32::MAX
            && self.clr_cmb_2 < i32::MAX && self.clr_cmb_1 < i32::MAX
    }
}

/// A lock that completes exactly two rows adds two to the total and one to
/// the two-row counter, and changes no other counter.
pub proof fn lemma_two_rows_scored(s: Stats)
    requires
        s.takes(2),
    ensures
        s.with_rows(2).cleared == s.cleared + 2,
        s.with_rows(2).clr_cmb_2 == s.clr_cmb_2 + 1,
        s.with_rows(2).clr_cmb_1 == s.clr_cmb_1,
        s.with_rows(2).clr_cmb_3 == s.clr_cmb_3,
        s.with_rows(2).clr_cmb_4 == s.clr_cmb_4,
{
}

/// A lock that completes `n` rows adds `n` to the total and one to exactly
/// one of the four counters; a lock that completes none changes nothing.
/// Statistics with room for any lock take every number of rows.
pub proof fn lemma_rows_scored(s: Stats, n: int)
    requires
        0 <= n <= 4,
        s.takes(n),
    ensures
        s.with_rows(n).cleared == s.cleared + n,
        s.with_rows(n).clr_cmb_1 == s.clr_cmb_1 + (if n == 1 { 1int } else { 0 }),
        s.with_rows(n).clr_cmb_2 == s.clr_cmb_2 + (if n == 2 { 1int } else { 0 }),
        s.with_rows(n).clr_cmb_3 == s.clr_cmb_3 + (if n == 3 { 1int } else { 0 }),
        s.with_rows(n).clr_cmb_4 == s.clr_cmb_4 + (if n == 4 { 1int } else { 0 }),
        s.has_room() ==> forall|k: int| s.takes(k),
{
}

} // verus!
