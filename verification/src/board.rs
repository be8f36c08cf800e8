//! The grid of locked cells.
//!
//! A board is modelled by its rows, top row first, each row a sequence of
//! cell values. Collision, freezing and row removal are stated over that
//! model; the change counter is kept apart from it.

use crate::block::{Block, SPAWN_X, SPAWN_Y};
use crate::common::{BlockRot, BlockType, CellVal, BOARD_DIM_X, BOARD_DIM_Y};
use vstd::prelude::*;

verus! {

/// The model of a board: its rows from top to bottom.
pub type Grid = Seq<Seq<CellVal>>;

/// A row in which every cell is `Free`.
pub open spec fn empty_row() -> Seq<CellVal> {
    Seq::new(BOARD_DIM_X as nat, |x: int| CellVal::Free)
}

/// The grid in which every cell is `Free`.
pub open spec fn empty_grid() -> Grid {
    Seq::new(BOARD_DIM_Y as nat, |y: int| empty_row())
}

/// A grid has the board's dimensions and stores no out-of-board sentinel.
pub open spec fn grid_wf(g: Grid) -> bool {
    &&& g.len() == BOARD_DIM_Y
    &&& forall|y: int| 0 <= y < BOARD_DIM_Y ==> (#[trigger] g[y]).len() == BOARD_DIM_X
    &&& forall|x: int, y: int|
        0 <= x < BOARD_DIM_X && 0 <= y < BOARD_DIM_Y ==> #[trigger] g[y][x] != CellVal::OutOfBoard
}

/// The value at column `x`, row `y`: the stored cell inside the grid, the
/// out-of-board sentinel everywhere else.
pub open spec fn cell_at(g: Grid, x: int, y: int) -> CellVal {
    if 0 <= y < g.len() && 0 <= x < g[y].len() {
        g[y][x]
    } else {
        CellVal::OutOfBoard
    }
}

/// The grid with the cell at column `x`, row `y` replaced by `val`.
pub open spec fn with_cell(g: Grid, x: int, y: int, val: CellVal) -> Grid {
    g.update(y, g[y].update(x, val))
}

/// Whether cell `(dx, dy)` of the piece's mask window is covered by the
/// piece and lands on a position that is outside the grid or not `Free`.
pub open spec fn hits(g: Grid, b: Block, dx: int, dy: int) -> bool {
    b.occupies(dx, dy) && cell_at(g, b.pos.0 + dx, b.pos.1 + dy) != CellVal::Free
}

/// Whether the piece collides: some covered cell of its 4x4 mask window
/// lands outside the grid or on a cell that is not `Free`.
pub open spec fn collides(g: Grid, b: Block) -> bool {
    exists|dx: int, dy: int| 0 <= dx < 4 && 0 <= dy < 4 && #[trigger] hits(g, b, dx, dy)
}

/// The grid after the piece has been frozen into it: every grid cell that
/// the piece covers holds the piece's color, every other cell is unchanged.
pub open spec fn frozen(g: Grid, b: Block) -> Grid {
    Seq::new(
        g.len(),
        |y: int|
            Seq::new(
                g[y].len(),
                |x: int|
                    if b.covers(x, y) {
                        b.color
                    } else {
                        g[y][x]
                    },
            ),
    )
}

/// A row is full when none of its cells is `Free`.
pub open spec fn row_full(row: Seq<CellVal>) -> bool {
    forall|x: int| 0 <= x < row.len() ==> row[x] != CellVal::Free
}

/// The grid after row `r` has been removed: the rows above it have moved
/// down by one and a fresh empty row has entered at the top.
pub open spec fn without_row(g: Grid, r: int) -> Grid {
    seq![empty_row()] + g.subrange(0, r) + g.subrange(r + 1, g.len() as int)
}

/// The rows that are not full, in their order from top to bottom.
pub open spec fn kept_rows(g: Grid) -> Grid {
    g.filter(|row: Seq<CellVal>| !row_full(row))
}

/// The number of full rows.
pub open spec fn full_row_count(g: Grid) -> nat {
    g.filter(|row: Seq<CellVal>| row_full(row)).len()
}

/// `n` empty rows.
pub open spec fn blank_rows(n: nat) -> Grid {
    Seq::new(n, |i: int| empty_row())
}

/// The grid after all its full rows have been removed: the rows that are
/// not full keep their order and sink to the bottom, and as many empty rows
/// as were removed fill the top.
pub open spec fn cleared(g: Grid) -> Grid {
    blank_rows(full_row_count(g)) + kept_rows(g)
}

/// A change counter advanced `k` times. The counter wraps around at the end
/// of its range; it is meant to be compared for inequality across polls.
#[verifier::opaque]
pub open spec fn bumped(c: u32, k: int) -> u32 {
    ((c + k) % 0x1_0000_0000) as u32
}

/// Advancing a counter in two runs is advancing it once by their sum, and
/// advancing it by nothing leaves it as it is.
pub proof fn lemma_bumped_sum(c: u32, a: int, b: int)
    requires
        0 <= a,
        0 <= b,
    ensures
        bumped(bumped(c, a), b) == bumped(c, a + b),
        bumped(c, 0) == c,
{
    reveal(bumped);
}

/// A counter that was advanced at least once, and fewer times than its range
/// holds values, differs from what it was.
pub proof fn lemma_bumped_differs(c: u32, k: int)
    requires
        0 < k < 0x1_0000_0000,
    ensures
        bumped(c, k) != c,
{
    reveal(bumped);
}

/// Wrapping addition advances a counter.
pub proof fn lemma_bumped_wraps(c: u32, k: u32)
    ensures
        c.wrapping_add(k) == bumped(c, k as int),
{
    reveal(bumped);
}

pub struct Board {
    cells: [[CellVal; BOARD_DIM_X]; BOARD_DIM_Y],
    change_count: u32,
}

impl View for Board {
    type V = Grid;

    closed spec fn view(&self) -> Grid {
        Seq::new(BOARD_DIM_Y as nat, |y: int| self.cells[y]@)
    }
}

impl Board {
    /// The board's invariant: see [`grid_wf`].
    pub open spec fn wf(&self) -> bool {
        grid_wf(self@)
    }

    /// How often the board has reported a change, modulo the counter's range.
    pub closed spec fn spec_change_count(&self) -> u32 {
        self.change_count
    }

    /// An empty board.
    pub fn new() -> (board: Board)
        ensures
            board@ == empty_grid(),
            board.wf(),
            board.change_count() == 0,
    {
        let board = Board { cells: [[CellVal::Free; BOARD_DIM_X]; BOARD_DIM_Y], change_count: 0 };
        assert(board@ =~~= empty_grid());
        board
    }

    /// The value at column `x`, row `y`; the out-of-board sentinel for every
    /// position outside the grid.
    pub fn at(&self, x: i32, y: i32) -> (val: CellVal)
        ensures
            val == cell_at(self@, x as int, y as int),
            !(0 <= x < BOARD_DIM_X && 0 <= y < BOARD_DIM_Y) ==> val == CellVal::OutOfBoard,
            self.wf() && 0 <= x < BOARD_DIM_X && 0 <= y < BOARD_DIM_Y ==> val != CellVal::OutOfBoard,
    {
        if x < 0 || x >= BOARD_DIM_X as i32 || y < 0 || y >= BOARD_DIM_Y as i32 {
            CellVal::OutOfBoard
        } else {
            self.cells[y as usize][x as usize]
        }
    }

    /// Stores `val` at column `x`, row `y`. The change counter stays as it is.
    pub fn set(&mut self, x: i32, y: i32, val: CellVal)
        requires
            0 <= x < BOARD_DIM_X,
            0 <= y < BOARD_DIM_Y,
            val != CellVal::OutOfBoard,
        ensures
            final(self)@ == with_cell(old(self)@, x as int, y as int, val),
            final(self).change_count() == old(self).change_count(),
            old(self).wf() ==> final(self).wf(),
    {
        self.cells[y as usize][x as usize] = val;
        assert(self@ =~~= with_cell(old(self)@, x as int, y as int, val));
    }

    pub fn width(&self) -> (w: i32)
        ensures
            w == BOARD_DIM_X,
    {
        BOARD_DIM_X as i32
    }

    pub fn height(&self) -> (h: i32)
        ensures
            h == BOARD_DIM_Y,
    {
        BOARD_DIM_Y as i32
    }

    /// The change counter's current value.
    #[verifier::when_used_as_spec(spec_change_count)]
    pub fn change_count(&self) -> (c: u32)
        ensures
            c == self.spec_change_count(),
    {
        self.change_count
    }

    /// Reports one change: advances the change counter and leaves the cells
    /// as they are.
    pub fn inc_change_count(&mut self)
        ensures
            final(self)@ == old(self)@,
            final(self).change_count() == bumped(old(self).change_count(), 1),
    {
        proof {
            lemma_bumped_wraps(self.change_count, 1);
        }
        self.change_count = self.change_count.wrapping_add(1);
    }

    /// The value at a position given in wide coordinates, so that a mask
    /// window hanging over any edge can be scanned without overflow.
    fn at_wide(&self, x: i64, y: i64) -> (val: CellVal)
        ensures
            val == cell_at(self@, x as int, y as int),
    {
        if x < 0 || x >= BOARD_DIM_X as i64 || y < 0 || y >= BOARD_DIM_Y as i64 {
            CellVal::OutOfBoard
        } else {
            self.cells[y as usize][x as usize]
        }
    }

    /// Whether the piece collides with the board's edges or locked cells.
    /// The answer depends on the stored cells and the piece alone.
    pub fn collides(&self, block: &Block) -> (hit: bool)
        ensures
            hit == collides(self@, *block),
    {
        let mut y: i32 = 0;
        while y < 4
            invariant
                0 <= y <= 4,
                forall|dx: int, dy: int| 0 <= dx < 4 && 0 <= dy < y ==> !#[trigger] hits(self@, *block, dx, dy),
            decreases 4 - y,
        {
            let mut x: i32 = 0;
            while x < 4
                invariant
                    0 <= y < 4,
                    0 <= x <= 4,
                    forall|dx: int, dy: int|
                        0 <= dx < 4 && 0 <= dy < y ==> !#[trigger] hits(self@, *block, dx, dy),
                    forall|dx: int| 0 <= dx < x ==> !#[trigger] hits(self@, *block, dx, y as int),
                decreases 4 - x,
            {
                if block.probe(x, y) {
                    let bx: i64 = block.pos.0 as i64 + x as i64;
                    let by: i64 = block.pos.1 as i64 + y as i64;
                    match self.at_wide(bx, by) {
                        CellVal::Free => {},
                        _ => {
                            assert(hits(self@, *block, x as int, y as int));
                            return true;
                        },
                    }
                }
                x = x + 1;
            }
            y = y + 1;
        }
        false
    }

    /// Freezes the piece into the board: writes the piece's color into every
    /// grid cell that the piece covers, and reports one change. Covered
    /// positions outside the grid are skipped; a covered cell that already
    /// holds a color is overwritten.
    pub fn freeze_block(&mut self, block: &Block)
        ensures
            final(self)@ == frozen(old(self)@, *block),
            final(self).change_count() == bumped(old(self).change_count(), 1),
            old(self).wf() && block.wf() ==> final(self).wf(),
    {
        let mut y: i32 = 0;
        while y < 4
            invariant
                0 <= y <= 4,
                self.change_count() == old(self).change_count(),
                forall|i: int, j: int|
                    0 <= i < BOARD_DIM_X && 0 <= j < BOARD_DIM_Y ==> #[trigger] self.cells[j][i] == (if block.covers(
                        i,
                        j,
                    ) && j - block.pos.1 < y {
                        block.color
                    } else {
                        old(self).cells[j][i]
                    }),
            decreases 4 - y,
        {
            let mut x: i32 = 0;
            while x < 4
                invariant
                    0 <= y < 4,
                    0 <= x <= 4,
                    self.change_count() == old(self).change_count(),
                    forall|i: int, j: int|
                        0 <= i < BOARD_DIM_X && 0 <= j < BOARD_DIM_Y ==> #[trigger] self.cells[j][i] == (if block.covers(
                            i,
                            j,
                        ) && (j - block.pos.1 < y || (j - block.pos.1 == y && i - block.pos.0 < x)) {
                            block.color
                        } else {
                            old(self).cells[j][i]
                        }),
                decreases 4 - x,
            {
                let bx: i64 = block.pos.0 as i64 + x as i64;
                let by: i64 = block.pos.1 as i64 + y as i64;
                let in_range = bx >= 0 && bx < BOARD_DIM_X as i64 && by >= 0 && by < BOARD_DIM_Y as i64;
                if in_range && block.probe(x, y) {
                    self.cells[by as usize][bx as usize] = block.color;
                }
                x = x + 1;
            }
            y = y + 1;
        }
        self.inc_change_count();
        assert(self@ =~~= frozen(old(self)@, *block));
    }

    /// Whether no cell of the row is `Free`.
    pub fn is_row_full(&self, row: i32) -> (full: bool)
        requires
            0 <= row < BOARD_DIM_Y,
        ensures
            full == row_full(self@[row as int]),
    {
        for x in 0..BOARD_DIM_X as i32
            invariant
                0 <= row < BOARD_DIM_Y,
                forall|i: int| 0 <= i < x ==> self@[row as int][i] != CellVal::Free,
        {
            match self.at(x, row) {
                CellVal::Free => {
                    return false;
                },
                _ => {},
            }
        }
        true
    }

    /// Whether some row is full.
    pub fn has_full_row(&self) -> (found: bool)
        ensures
            found == (full_row_count(self@) > 0),
    {
        proof {
            lemma_no_full_rows(self@);
        }
        for y in 0..BOARD_DIM_Y as i32
            invariant
                forall|j: int| 0 <= j < y ==> !row_full(#[trigger] self@[j]),
                self@.len() == BOARD_DIM_Y,
                full_row_count(self@) == 0 <==> (forall|j: int|
                    0 <= j < self@.len() ==> !row_full(#[trigger] self@[j])),
        {
            if self.is_row_full(y) {
                return true;
            }
        }
        false
    }

    /// Removes one row: every row above it moves down by one, the top row
    /// becomes empty, and one change is reported.
    pub fn remove_row(&mut self, row: i32)
        requires
            0 <= row < BOARD_DIM_Y,
        ensures
            final(self)@ == without_row(old(self)@, row as int),
            final(self).change_count() == bumped(old(self).change_count(), 1),
            old(self).wf() ==> final(self).wf(),
    {
        let mut y: i32 = row;
        while y > 0
            invariant
                0 <= y <= row < BOARD_DIM_Y,
                self.change_count() == old(self).change_count(),
                forall|j: int| y < j <= row ==> #[trigger] self.cells[j] == old(self).cells[j - 1],
                forall|j: int|
                    (0 <= j <= y || row < j < BOARD_DIM_Y) ==> #[trigger] self.cells[j] == old(
                        self,
                    ).cells[j],
            decreases y,
        {
            y = y - 1;
            for x in 0..BOARD_DIM_X as i32
                invariant
                    0 <= y < row < BOARD_DIM_Y,
                    self.change_count() == old(self).change_count(),
                    forall|i: int| 0 <= i < x ==> #[trigger] self.cells[y + 1][i] == old(self).cells[y as int][i],
                    forall|i: int|
                        x <= i < BOARD_DIM_X ==> #[trigger] self.cells[y + 1][i] == old(self).cells[y + 1][i],
                    forall|j: int| y + 1 < j <= row ==> #[trigger] self.cells[j] == old(self).cells[j - 1],
                    forall|j: int|
                        (0 <= j <= y || row < j < BOARD_DIM_Y) ==> #[trigger] self.cells[j] == old(
                            self,
                        ).cells[j],
            {
                let val = self.cells[y as usize][x as usize];
                self.cells[(y + 1) as usize][x as usize] = val;
            }
            assert(self.cells[y + 1] =~= old(self).cells[y as int]);
        }
        for x in 0..BOARD_DIM_X as i32
            invariant
                0 <= row < BOARD_DIM_Y,
                self.change_count() == old(self).change_count(),
                forall|i: int| 0 <= i < x ==> #[trigger] self.cells[0][i] == CellVal::Free,
                forall|j: int| 0 < j <= row ==> #[trigger] self.cells[j] == old(self).cells[j - 1],
                forall|j: int| row < j < BOARD_DIM_Y ==> #[trigger] self.cells[j] == old(self).cells[j],
        {
            self.cells[0][x as usize] = CellVal::Free;
        }
        self.inc_change_count();
        assert(self@ =~~= without_row(old(self)@, row as int));
    }

    /// Removes every full row, scanning from the top row down, and returns
    /// how many rows were removed. Each removal reports one change, and the
    /// scan itself reports one more.
    pub fn clear_full_rows(&mut self) -> (count: i32)
        ensures
            count == full_row_count(old(self)@),
            final(self)@ == cleared(old(self)@),
            final(self).change_count() == bumped(old(self).change_count(), count + 1),
            old(self).wf() ==> final(self).wf(),
    {
        let mut count: i32 = 0;
        proof {
            lemma_scan_start(old(self)@);
            lemma_bumped_sum(old(self).change_count(), 0, 0);
        }
        for y in 0..BOARD_DIM_Y as i32
            invariant
                0 <= count <= y,
                count == full_row_count(old(self)@.take(y as int)),
                self@.len() == BOARD_DIM_Y,
                self@.take(y as int) == blank_rows(count as nat) + kept_rows(old(self)@.take(y as int)),
                self@.skip(y as int) == old(self)@.skip(y as int),
                self.change_count() == bumped(old(self).change_count(), count as int),
                old(self).wf() ==> self.wf(),
        {
            let ghost before = self@;
            proof {
                lemma_scan_step(old(self)@, y as int);
                assert(before[y as int] == before.skip(y as int)[0]);
                assert(old(self)@[y as int] == old(self)@.skip(y as int)[0]);
            }
            if self.is_row_full(y) {
                self.remove_row(y);
                count = count + 1;
                proof {
                    lemma_bumped_sum(old(self).change_count(), count - 1, 1);
                    let k = (count - 1) as nat;
                    assert(self@.take(y + 1) =~= seq![empty_row()] + before.take(y as int));
                    assert(seq![empty_row()] + blank_rows(k) =~= blank_rows(count as nat));
                    assert(self@.skip(y + 1) =~= before.skip(y as int).skip(1));
                    assert(old(self)@.skip(y + 1) =~= old(self)@.skip(y as int).skip(1));
                }
            } else {
                proof {
                    assert(self@.take(y + 1) =~= before.take(y as int).push(before[y as int]));
                    assert(self@.skip(y + 1) =~= before.skip(y as int).skip(1));
                    assert(old(self)@.skip(y + 1) =~= old(self)@.skip(y as int).skip(1));
                }
            }
        }
        self.inc_change_count();
        proof {
            lemma_bumped_sum(old(self).change_count(), count as int, 1);
            assert(old(self)@.take(BOARD_DIM_Y as int) =~= old(self)@);
            assert(self@.take(BOARD_DIM_Y as int) =~= self@);
        }
        count
    }

    /// Resets every cell to `Free` and reports one change.
    pub fn clear(&mut self)
        ensures
            final(self)@ == empty_grid(),
            final(self).wf(),
            final(self).change_count() == bumped(old(self).change_count(), 1),
    {
        self.cells = [[CellVal::Free; BOARD_DIM_X]; BOARD_DIM_Y];
        self.inc_change_count();
        assert(self@ =~~= empty_grid());
    }
}

/// Every shape, in every rotation state, covers at least one cell of its
/// mask window.
pub proof fn lemma_piece_has_cell(b: Block) -> (cell: (int, int))
    ensures
        0 <= cell.0 < 4,
        0 <= cell.1 < 4,
        b.occupies(cell.0, cell.1),
{
    if b.block_type == BlockType::I && b.rotation == BlockRot::Rot1 {
        (2, 1)
    } else if b.block_type == BlockType::I && b.rotation == BlockRot::Rot2 {
        (1, 2)
    } else {
        (1, 1)
    }
}

/// A piece that does not collide lies within three cells of the grid's
/// top-left corner and starts before its bottom-right corner, and each cell
/// that it covers is a `Free` cell of the grid.
pub proof fn lemma_free_piece_in_grid(g: Grid, b: Block)
    requires
        grid_wf(g),
        !collides(g, b),
    ensures
        -3 <= b.pos.0 < BOARD_DIM_X,
        -3 <= b.pos.1 < BOARD_DIM_Y,
        forall|x: int, y: int|
            b.covers(x, y) ==> 0 <= x < BOARD_DIM_X && 0 <= y < BOARD_DIM_Y && #[trigger] g[y][x]
                == CellVal::Free,
{
    let cell = lemma_piece_has_cell(b);
    assert(!hits(g, b, cell.0, cell.1));
    assert forall|x: int, y: int| b.covers(x, y) implies 0 <= x < BOARD_DIM_X && 0 <= y
        < BOARD_DIM_Y && #[trigger] g[y][x] == CellVal::Free by {
        assert(!hits(g, b, x - b.pos.0, y - b.pos.1));
    }
}

/// A piece in spawn position never collides with the empty grid.
pub proof fn lemma_spawn_fits(b: Block)
    requires
        b.pos == (SPAWN_X, SPAWN_Y),
    ensures
        !collides(empty_grid(), b),
{
    assert forall|dx: int, dy: int| 0 <= dx < 4 && 0 <= dy < 4 implies !#[trigger] hits(
        empty_grid(),
        b,
        dx,
        dy,
    ) by {}
}

/// Freezing keeps a grid well formed when the piece's color is a locked
/// color.
pub proof fn lemma_frozen_wf(g: Grid, b: Block)
    requires
        grid_wf(g),
        b.wf(),
    ensures
        grid_wf(frozen(g, b)),
{
}

/// Once a piece that did not collide is frozen, any piece of the same shape
/// in the same rotation state at the same position collides: locked cells
/// are not `Free`.
pub proof fn lemma_frozen_piece_collides(g: Grid, p: Block, q: Block)
    requires
        grid_wf(g),
        p.wf(),
        !collides(g, p),
        q.block_type == p.block_type,
        q.rotation == p.rotation,
        q.pos == p.pos,
    ensures
        collides(frozen(g, p), q),
{
    let cell = lemma_piece_has_cell(p);
    lemma_free_piece_in_grid(g, p);
    let x = p.pos.0 + cell.0;
    let y = p.pos.1 + cell.1;
    assert(p.covers(x, y));
    assert(g[y][x] == CellVal::Free);
    assert(frozen(g, p)[y][x] == p.color);
    assert(hits(frozen(g, p), q, cell.0, cell.1));
}

/// A grid has no full row exactly when its count of full rows is zero.
pub proof fn lemma_no_full_rows(g: Grid)
    ensures
        full_row_count(g) == 0 <==> (forall|y: int| 0 <= y < g.len() ==> !row_full(#[trigger] g[y])),
{
    let full = |row: Seq<CellVal>| row_full(row);
    if full_row_count(g) == 0 {
        assert forall|y: int| 0 <= y < g.len() implies !row_full(#[trigger] g[y]) by {
            if row_full(g[y]) {
                g.lemma_filter_contains(full, y);
            }
        }
    }
    if forall|y: int| 0 <= y < g.len() ==> !row_full(#[trigger] g[y]) {
        lemma_full_rows_in_window(g, g.len() as int, g.len() as int);
        assert(g.take(g.len() as int) =~= g);
    }
}

/// When every full row lies in the four rows that start at row `top`, the
/// first `y` rows hold no more full rows than they share with that window.
pub proof fn lemma_full_rows_in_window(g: Grid, top: int, y: int)
    requires
        0 <= y <= g.len(),
        forall|j: int| 0 <= j < g.len() && row_full(#[trigger] g[j]) ==> top <= j < top + 4,
    ensures
        full_row_count(g.take(y)) <= (if y <= top {
            0
        } else if y >= top + 4 {
            4
        } else {
            y - top
        }),
    decreases y,
{
    if y == 0 {
        lemma_scan_start(g);
    } else {
        lemma_full_rows_in_window(g, top, y - 1);
        lemma_scan_step(g, y - 1);
    }
}

/// Freezing one piece into a grid without full rows completes at most four
/// rows.
pub proof fn lemma_frozen_full_rows(g: Grid, b: Block)
    requires
        grid_wf(g),
        full_row_count(g) == 0,
    ensures
        full_row_count(frozen(g, b)) <= 4,
{
    let f = frozen(g, b);
    lemma_no_full_rows(g);
    assert forall|j: int| 0 <= j < f.len() && row_full(#[trigger] f[j]) implies b.pos.1 <= j
        < b.pos.1 + 4 by {
        if !(b.pos.1 <= j < b.pos.1 + 4) {
            assert(f[j] =~= g[j]);
        }
    }
    lemma_full_rows_in_window(f, b.pos.1 as int, f.len() as int);
    assert(f.take(f.len() as int) =~= f);
}

/// Clearing leaves no full row behind and keeps a grid well formed.
pub proof fn lemma_cleared_has_no_full_rows(g: Grid)
    requires
        grid_wf(g),
    ensures
        grid_wf(cleared(g)),
        full_row_count(cleared(g)) == 0,
{
    let keep = |row: Seq<CellVal>| !row_full(row);
    let full = |row: Seq<CellVal>| row_full(row);
    let c = cleared(g);
    let n = full_row_count(g);
    lemma_full_and_kept(g, g.len() as int);
    assert(g.take(g.len() as int) =~= g);
    assert(c.len() == g.len());
    assert forall|y: int| 0 <= y < c.len() implies !row_full(#[trigger] c[y]) && c[y].len()
        == BOARD_DIM_X && (forall|x: int| 0 <= x < BOARD_DIM_X ==> c[y][x] != CellVal::OutOfBoard) by {
        if y < n {
            assert(c[y] == empty_row());
            assert(empty_row()[0] == CellVal::Free);
        } else {
            let i = y - n;
            assert(c[y] == kept_rows(g)[i]);
            g.lemma_filter_pred(keep, i);
            g.lemma_filter_contains_rev(keep, kept_rows(g)[i]);
            let j = choose|j: int| 0 <= j < g.len() && g[j] == kept_rows(g)[i];
            assert(c[y] == g[j]);
        }
    }
    lemma_no_full_rows(c);
}

/// Full rows and kept rows together are all the rows.
pub proof fn lemma_full_and_kept(g: Grid, y: int)
    requires
        0 <= y <= g.len(),
    ensures
        full_row_count(g.take(y)) + kept_rows(g.take(y)).len() == y,
    decreases y,
{
    if y == 0 {
        lemma_scan_start(g);
    } else {
        lemma_full_and_kept(g, y - 1);
        lemma_scan_step(g, y - 1);
    }
}

/// Clearing a grid without full rows removes nothing and changes nothing.
pub proof fn lemma_clear_without_full_rows(g: Grid)
    requires
        full_row_count(g) == 0,
    ensures
        cleared(g) == g,
{
    lemma_full_and_kept(g, g.len() as int);
    assert(g.take(g.len() as int) =~= g);
    lemma_kept_is_all(g, g.len() as int);
    assert(cleared(g) =~= g);
}

/// The empty grid is well formed and has no full row, so clearing it
/// removes no row and leaves it unchanged.
pub proof fn lemma_clear_empty_grid()
    ensures
        grid_wf(empty_grid()),
        full_row_count(empty_grid()) == 0,
        cleared(empty_grid()) == empty_grid(),
{
    let e = empty_grid();
    assert forall|y: int| 0 <= y < e.len() implies !row_full(#[trigger] e[y]) by {
        assert(e[y][0] == CellVal::Free);
    }
    lemma_no_full_rows(e);
    lemma_clear_without_full_rows(e);
}

/// Where no scanned row is full, the kept rows are the scanned rows.
proof fn lemma_kept_is_all(g: Grid, y: int)
    requires
        0 <= y <= g.len(),
        full_row_count(g.take(y)) == 0,
    ensures
        kept_rows(g.take(y)) == g.take(y),
    decreases y,
{
    if y == 0 {
        lemma_scan_start(g);
        assert(kept_rows(g.take(0)) =~= g.take(0));
    } else {
        lemma_scan_step(g, y - 1);
        lemma_kept_is_all(g, y - 1);
        assert(g.take(y - 1).push(g[y - 1]) =~= g.take(y));
    }
}

/// Before any row has been scanned, nothing is kept and nothing is counted.
proof fn lemma_scan_start(g: Grid)
    ensures
        full_row_count(g.take(0)) == 0,
        kept_rows(g.take(0)) =~= Seq::<Seq<CellVal>>::empty(),
        g.take(0) =~= blank_rows(0) + kept_rows(g.take(0)),
{
    reveal(Seq::filter);
}

/// Scanning one more row either counts it, when it is full, or keeps it.
proof fn lemma_scan_step(g: Grid, y: int)
    requires
        0 <= y < g.len(),
    ensures
        row_full(g[y]) ==> full_row_count(g.take(y + 1)) == full_row_count(g.take(y)) + 1,
        row_full(g[y]) ==> kept_rows(g.take(y + 1)) == kept_rows(g.take(y)),
        !row_full(g[y]) ==> full_row_count(g.take(y + 1)) == full_row_count(g.take(y)),
        !row_full(g[y]) ==> kept_rows(g.take(y + 1)) == kept_rows(g.take(y)).push(g[y]),
{
    reveal(Seq::filter);
    assert(g.take(y + 1).drop_last() =~= g.take(y));
    assert(g.take(y + 1).last() == g[y]);
}

} // verus!
