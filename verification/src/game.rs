//! The engine: one board, the active piece, the next piece, the statistics
//! and the descent timer, driven by one input and one timer step per frame.
//!
//! Every transition is stated as a function on [`GameView`], the engine's
//! model. A move is applied to the active piece first, checked against the
//! board, and taken back when the piece collides. Random pieces enter a
//! transition as arguments of the model function; the engine's own methods
//! either draw them or take them from the caller. The descent timer forces
//! one descent every `STEP_INTERVAL` steps.

use crate::block::{Block, SPAWN_X, SPAWN_Y};
use crate::board::{
    bumped, cell_at, cleared, collides, empty_grid, frozen, full_row_count, grid_wf,
    lemma_clear_empty_grid, lemma_cleared_has_no_full_rows, lemma_free_piece_in_grid,
    lemma_bumped_differs, lemma_bumped_sum, lemma_bumped_wraps, lemma_frozen_full_rows,
    lemma_frozen_wf, lemma_spawn_fits, Board, Grid,
};
use crate::common::{BlockRot, BlockType, CellVal, Stats, UserInput, BOARD_DIM_X, BOARD_DIM_Y};
use vstd::prelude::*;

verus! {

/// Timer steps between two forced descents.
pub const STEP_INTERVAL: u32 = 10;

/// The engine's model.
pub struct GameView {
    /// The locked cells, row by row from the top.
    pub board: Grid,
    /// The piece in play.
    pub active: Block,
    /// The piece that comes into play at the next lock.
    pub next: Block,
    pub stats: Stats,
    /// Timer steps left until the next forced descent.
    pub time_to_step: u32,
    /// The value that the timer restarts from.
    pub step_interval: u32,
    /// The change counter: advanced by every committed change, never by a
    /// rejected one; see [`bumped`].
    pub changes: u32,
}

impl GameView {
    /// What holds between any two transitions: the grid is well formed and
    /// has no full row, both pieces carry a locked color, and the active
    /// piece does not collide.
    pub open spec fn wf(self) -> bool {
        &&& self.parts_wf()
        &&& !collides(self.board, self.active)
    }

    /// Well-formedness but for the position of the active piece.
    pub open spec fn parts_wf(self) -> bool {
        &&& grid_wf(self.board)
        &&& full_row_count(self.board) == 0
        &&& self.active.wf()
        &&& self.next.wf()
    }

    /// A sideways move by `dx` columns: committed unless the moved piece
    /// collides, in which case nothing changes. A move so far that the
    /// offset cannot hold it leaves the grid, so it is rejected too.
    pub open spec fn shifted(self, dx: int) -> GameView {
        let target = self.active.moved(dx, 0);
        if !self.active.can_move(dx, 0) || collides(self.board, target) {
            self
        } else {
            GameView { active: target, changes: bumped(self.changes, 1), ..self }
        }
    }

    /// A quarter turn, clockwise for `dr == 1`, counter-clockwise for
    /// `dr == -1`: committed unless the turned piece collides, in which case
    /// nothing changes. No other position is tried.
    pub open spec fn turned(self, dr: int) -> GameView {
        let target = self.active.turned(dr);
        if collides(self.board, target) {
            self
        } else {
            GameView { active: target, changes: bumped(self.changes, 1), ..self }
        }
    }

    /// Whether the active piece can move down by one row.
    pub open spec fn can_descend(self) -> bool {
        !collides(self.board, self.active.moved(0, 1))
    }

    /// The active piece moved down by one row.
    pub open spec fn descended(self) -> GameView {
        GameView { active: self.active.moved(0, 1), changes: bumped(self.changes, 1), ..self }
    }

    /// Whether the active piece can fall by `k` rows and no further.
    pub open spec fn rests_after(self, k: int) -> bool {
        &&& 0 <= k
        &&& forall|j: int| 0 <= j <= k ==> !collides(self.board, #[trigger] self.active.moved(0, j))
        &&& collides(self.board, self.active.moved(0, k + 1))
    }

    /// The number of rows that the active piece can fall.
    pub open spec fn drop_distance(self) -> int {
        choose|k: int| self.rests_after(k)
    }

    /// A hard drop: the active piece falls as far as it can. It does not
    /// lock; the next blocked descent does that.
    pub open spec fn dropped(self) -> GameView {
        let k = self.drop_distance();
        GameView { active: self.active.moved(0, k), changes: bumped(self.changes, k), ..self }
    }

    /// A new game: the board is emptied, the next piece comes into play at
    /// the spawn position, `fresh` becomes the next piece and the statistics
    /// return to zero. The descent timer runs on.
    pub open spec fn reset(self, fresh: Block) -> GameView {
        GameView {
            board: empty_grid(),
            active: Block::respawned_as(self.next),
            next: fresh,
            stats: Stats::zero(),
            changes: bumped(self.changes, 3),
            ..self
        }
    }

    /// The number of rows that are full once the active piece is frozen
    /// where it is.
    pub open spec fn rows_completed(self) -> nat {
        full_row_count(frozen(self.board, self.active))
    }

    /// Whether the piece that comes into play at a lock of the active piece
    /// collides at once. The piece that is drawn at the lock has no part in
    /// it.
    pub open spec fn lock_ends_game(self) -> bool {
        collides(cleared(frozen(self.board, self.active)), Block::respawned_as(self.next))
    }

    /// Whether a lock of the active piece where it is keeps every counter in
    /// range. A lock that ends the game records nothing, since the new game
    /// starts from zero; any other lock needs room for the rows it removes.
    pub open spec fn lock_fits(self) -> bool {
        self.lock_ends_game() || self.stats.takes(self.rows_completed() as int)
    }

    /// Whether lowering the active piece keeps every counter in range: it
    /// does when the piece can descend, and when the lock that follows
    /// otherwise can be recorded.
    pub open spec fn lowering_fits(self) -> bool {
        self.can_descend() || self.lock_fits()
    }

    /// Whether the input keeps every counter in range. Only `MoveDown` can
    /// lock, so every other input does.
    pub open spec fn input_fits(self, input: UserInput) -> bool {
        input == UserInput::MoveDown ==> self.lowering_fits()
    }

    /// Whether the timer step keeps every counter in range. Only the step
    /// that brings the timer to zero lowers the piece.
    pub open spec fn step_fits(self) -> bool {
        self.time_to_step <= 1 ==> self.lowering_fits()
    }

    /// The first half of a lock: the active piece is frozen into the board,
    /// the full rows are removed and scored, the next piece comes into play
    /// at the spawn position, and `fresh` becomes the next piece.
    pub open spec fn promoted(self, fresh: Block) -> GameView {
        let solid = frozen(self.board, self.active);
        let rows = self.rows_completed();
        GameView {
            board: cleared(solid),
            active: Block::respawned_as(self.next),
            next: fresh,
            stats: self.stats.with_rows(rows as int),
            changes: bumped(self.changes, rows as int + 4),
            ..self
        }
    }

    /// Whether the piece that has just come into play already collides.
    pub open spec fn spawn_blocked(self) -> bool {
        collides(self.board, self.active)
    }

    /// A lock. When the piece that comes into play is blocked at once, the
    /// game is over and a new game starts, with `spare` as its next piece.
    pub open spec fn locked(self, fresh: Block, spare: Block) -> GameView {
        let mid = self.promoted(fresh);
        if mid.spawn_blocked() {
            mid.reset(spare)
        } else {
            mid
        }
    }

    /// A descent by one row, or a lock when the piece is blocked below.
    pub open spec fn lowered(self, fresh: Block, spare: Block) -> GameView {
        if self.can_descend() {
            self.descended()
        } else {
            self.locked(fresh, spare)
        }
    }

    /// The state after one input. `fresh` and `spare` are the pieces that a
    /// lock or a reset draws; the other inputs ignore them.
    pub open spec fn after_input(self, input: UserInput, fresh: Block, spare: Block) -> GameView {
        match input {
            UserInput::MoveLeft => self.shifted(-1),
            UserInput::MoveRight => self.shifted(1),
            UserInput::MoveDown => self.lowered(fresh, spare),
            UserInput::DropDown => self.dropped(),
            UserInput::RotateLeft => self.turned(-1),
            UserInput::RotateRight => self.turned(1),
            UserInput::Reset => self.reset(fresh),
            UserInput::NoInput => self,
        }
    }

    /// The state after one timer step. The timer counts down; the step that
    /// brings it to zero lowers the active piece and restarts the timer at
    /// the interval, so that a descent is forced every `step_interval` steps.
    pub open spec fn after_step(self, fresh: Block, spare: Block) -> GameView {
        if self.time_to_step <= 1 {
            GameView { time_to_step: self.step_interval, ..self.lowered(fresh, spare) }
        } else {
            GameView { time_to_step: (self.time_to_step - 1) as u32, ..self }
        }
    }

    /// The state after `k` timer steps, each of which draws `fresh` and
    /// `spare` where it locks.
    pub open spec fn after_steps(self, k: nat, fresh: Block, spare: Block) -> GameView
        decreases k,
    {
        if k == 0 {
            self
        } else {
            self.after_steps((k - 1) as nat, fresh, spare).after_step(fresh, spare)
        }
    }
}

pub struct Game {
    time_to_step: u32,
    step_interval: u32,
    board: Board,
    active_piece: Block,
    next_piece: Block,
    stats: Stats,
    piece_changes: u32,
}

impl View for Game {
    type V = GameView;

    closed spec fn view(&self) -> GameView {
        GameView {
            board: self.board@,
            active: self.active_piece,
            next: self.next_piece,
            stats: self.stats,
            time_to_step: self.time_to_step,
            step_interval: self.step_interval,
            changes: bumped(self.board.change_count(), self.piece_changes as int),
        }
    }
}

impl Game {
    /// The engine's invariant: see [`GameView::wf`].
    pub open spec fn wf(&self) -> bool {
        self@.wf()
    }

    /// A new game on an empty board, with two randomly drawn pieces.
    pub fn new() -> (game: Game)
        ensures
            game.wf(),
            game@.board == empty_grid(),
            game@.active.is_fresh(),
            game@.next.is_fresh(),
            game@.stats == Stats::zero(),
            game@.time_to_step == STEP_INTERVAL,
            game@.step_interval == STEP_INTERVAL,
            game@.changes == 0,
    {
        let game = Game {
            time_to_step: STEP_INTERVAL,
            step_interval: STEP_INTERVAL,
            board: Board::new(),
            active_piece: Block::rand(),
            next_piece: Block::rand(),
            stats: Stats::new(),
            piece_changes: 0,
        };
        proof {
            lemma_spawn_fits(game.active_piece);
            lemma_clear_empty_grid();
            lemma_bumped_sum(0, 0, 0);
        }
        game
    }

    /// The change counter: it differs between two polls whenever a change
    /// was committed in between.
    pub fn change_count(&self) -> (count: u32)
        ensures
            count == self@.changes,
    {
        proof {
            lemma_bumped_wraps(self.board.change_count(), self.piece_changes);
        }
        self.board.change_count().wrapping_add(self.piece_changes)
    }

    /// What a renderer shows at column `x`, row `y`: the active piece's color
    /// where the piece covers the position, else the value that the board
    /// holds there, the out-of-board sentinel outside the grid.
    pub fn cell_value(&self, x: i32, y: i32) -> (val: CellVal)
        ensures
            val == (if self@.active.covers(x as int, y as int) {
                self@.active.color
            } else {
                cell_at(self@.board, x as int, y as int)
            }),
    {
        let dx: i64 = x as i64 - self.active_piece.pos.0 as i64;
        let dy: i64 = y as i64 - self.active_piece.pos.1 as i64;
        if 0 <= dx && dx < 4 && 0 <= dy && dy < 4 && self.active_piece.probe(dx as i32, dy as i32) {
            self.active_piece.color
        } else {
            self.board.at(x, y)
        }
    }

    /// Reports `times` changes to the pieces.
    fn pieces_changed(&mut self, times: u32)
        ensures
            final(self)@ == (GameView {
                changes: bumped(old(self)@.changes, times as int),
                ..old(self)@
            }),
    {
        proof {
            lemma_bumped_wraps(self.piece_changes, times);
            lemma_bumped_sum(0, self.piece_changes as int, times as int);
            lemma_bumped_sum(0, 0, self.piece_changes as int);
            lemma_bumped_swap(self.board.change_count(), self.piece_changes as int, times as int);
            reveal(bumped);
        }
        self.piece_changes = self.piece_changes.wrapping_add(times);
    }

    /// Moves the active piece sideways by `amount` columns, to the right for
    /// a positive amount and to the left for a negative one, and takes the
    /// move back when the moved piece collides.
    pub fn try_move_piece_horizontally(&mut self, amount: i32)
        requires
            old(self).wf(),
        ensures
            final(self).wf(),
            final(self)@ == old(self)@.shifted(amount as int),
    {
        proof {
            lemma_free_piece_in_grid(self.board@, self.active_piece);
        }
        let target: i64 = self.active_piece.pos.0 as i64 + amount as i64;
        if target < -3 || target >= BOARD_DIM_X as i64 {
            // A mask window that starts there holds no cell of the grid.
            proof {
                if self.active_piece.can_move(amount as int, 0) {
                    let moved = self.active_piece.moved(amount as int, 0);
                    if !collides(self.board@, moved) {
                        lemma_free_piece_in_grid(self.board@, moved);
                    }
                }
            }
            return;
        }
        self.active_piece.move_horizontally(amount);
        if self.board.collides(&self.active_piece) {
            self.active_piece.move_horizontally(-amount);
        } else {
            self.pieces_changed(1);
        }
    }

    /// Turns the active piece by one quarter turn, clockwise for
    /// `amount == 1` and counter-clockwise for `amount == -1`, and takes the
    /// turn back when the turned piece collides.
    pub fn try_rotate_piece(&mut self, amount: i32)
        requires
            old(self).wf(),
            amount == 1 || amount == -1,
        ensures
            final(self).wf(),
            final(self)@ == old(self)@.turned(amount as int),
    {
        self.active_piece.rotate(amount);
        if self.board.collides(&self.active_piece) {
            self.active_piece.rotate(-amount);
        } else {
            self.pieces_changed(1);
        }
    }

    /// Moves the active piece down by one row and takes the move back when
    /// the moved piece collides. Returns whether the move was committed.
    fn try_descend(&mut self) -> (moved: bool)
        requires
            old(self).wf(),
        ensures
            final(self).wf(),
            moved == old(self)@.can_descend(),
            moved ==> final(self)@ == old(self)@.descended(),
            !moved ==> final(self)@ == old(self)@,
    {
        proof {
            lemma_free_piece_in_grid(self.board@, self.active_piece);
        }
        self.active_piece.move_vertically(1);
        if self.board.collides(&self.active_piece) {
            self.active_piece.move_vertically(-1);
            false
        } else {
            self.pieces_changed(1);
            true
        }
    }

    /// Lets the active piece fall as far as it can. The piece is moved down
    /// row by row until it collides, and the last move is taken back. The
    /// piece does not lock.
    pub fn drop_piece(&mut self)
        requires
            old(self).wf(),
        ensures
            final(self).wf(),
            final(self)@ == old(self)@.dropped(),
    {
        let ghost start = self@;
        let mut rows: u32 = 0;
        proof {
            lemma_free_piece_in_grid(self.board@, self.active_piece);
        }
        while !self.board.collides(&self.active_piece)
            invariant
                start.wf(),
                rows <= self.active_piece.pos.1 + 3,
                self@ == (GameView { active: start.active.moved(0, rows as int), ..start }),
                start.active.can_move(0, rows as int),
                forall|j: int| 0 <= j < rows ==> !collides(start.board, #[trigger] start.active.moved(0, j)),
            decreases BOARD_DIM_Y - self.active_piece.pos.1,
        {
            proof {
                lemma_free_piece_in_grid(self.board@, self.active_piece);
                lemma_free_piece_in_grid(start.board, start.active);
            }
            self.active_piece.move_vertically(1);
            rows = rows + 1;
        }
        assert(rows > 0) by {
            if rows == 0 {
                assert(start.active.moved(0, 0) == start.active);
            }
        }
        self.active_piece.move_vertically(-1);
        self.pieces_changed(rows - 1);
        proof {
            let k = rows as int - 1;
            assert(start.active.moved(0, rows as int).moved(0, -1) == start.active.moved(0, k));
            assert(start.rests_after(k));
            lemma_rest_unique(start, k, start.drop_distance());
        }
    }

    /// Folds the rows that one lock removed into the statistics: `amount` is
    /// added to the total, and the counter for locks that removed `amount`
    /// rows goes up by one.
    pub fn on_rows_cleared(&mut self, amount: i32)
        requires
            1 <= amount <= 4,
            old(self)@.stats.takes(amount as int),
        ensures
            final(self)@ == (GameView { stats: old(self)@.stats.with_rows(amount as int), ..old(self)@ }),
    {
        self.stats.cleared += amount;
        if amount == 1 {
            self.stats.clr_cmb_1 += 1;
        } else if amount == 2 {
            self.stats.clr_cmb_2 += 1;
        } else if amount == 3 {
            self.stats.clr_cmb_3 += 1;
        } else {
            self.stats.clr_cmb_4 += 1;
        }
    }

    /// Freezes the active piece into the board and removes the full rows.
    /// Returns how many rows were removed: at most four, since the board had
    /// no full row before and one piece spans four rows at most.
    fn settle_board(&mut self) -> (rows: i32)
        requires
            old(self).wf(),
        ensures
            0 <= rows <= 4,
            rows == full_row_count(frozen(old(self)@.board, old(self)@.active)),
            final(self)@ == (GameView {
                board: cleared(frozen(old(self)@.board, old(self)@.active)),
                changes: bumped(old(self)@.changes, rows + 2),
                ..old(self)@
            }),
            final(self)@.parts_wf(),
    {
        proof {
            lemma_frozen_full_rows(self.board@, self.active_piece);
            lemma_cleared_has_no_full_rows(frozen(self.board@, self.active_piece));
        }
        self.board.freeze_block(&self.active_piece);
        let rows = self.board.clear_full_rows();
        proof {
            let stamp = old(self).board.change_count();
            lemma_bumped_sum(stamp, 1, rows + 1);
            lemma_bumped_swap(stamp, rows + 2, self.piece_changes as int);
        }
        rows
    }

    /// The first half of a lock: freezes the active piece, removes the full
    /// rows, brings the next piece into play and makes `fresh` the next
    /// piece. Returns whether the piece that came into play collides at
    /// once. The removed rows are scored unless it does: the new game that
    /// follows starts from zero.
    fn lock_active(&mut self, fresh: Block) -> (blocked: bool)
        requires
            old(self).wf(),
            old(self)@.lock_fits(),
            fresh.wf(),
        ensures
            blocked == old(self)@.promoted(fresh).spawn_blocked(),
            blocked == old(self)@.lock_ends_game(),
            !blocked ==> final(self)@ == old(self)@.promoted(fresh),
            blocked ==> final(self)@ == (GameView {
                stats: old(self)@.stats,
                ..old(self)@.promoted(fresh)
            }),
            final(self)@.parts_wf(),
    {
        let row_count = self.settle_board();
        self.active_piece.replace(&self.next_piece);
        self.pieces_changed(1);
        self.next_piece = fresh;
        self.pieces_changed(1);
        proof {
            let stamp = bumped(old(self)@.changes, row_count + 2);
            lemma_bumped_sum(stamp, 1, 1);
            lemma_bumped_sum(old(self)@.changes, row_count + 2, 2);
        }
        let blocked = self.board.collides(&self.active_piece);
        if !blocked && row_count > 0 {
            self.on_rows_cleared(row_count);
        }
        blocked
    }

    /// Starts a new game with `fresh` as the piece after the one that comes
    /// into play: see [`GameView::reset`].
    pub fn new_game_with(&mut self, fresh: Block)
        requires
            old(self)@.next.wf(),
            fresh.wf(),
        ensures
            final(self).wf(),
            final(self)@ == old(self)@.reset(fresh),
    {
        self.board.clear();
        self.active_piece.replace(&self.next_piece);
        self.pieces_changed(1);
        self.next_piece = fresh;
        self.pieces_changed(1);
        self.stats.reset();
        proof {
            lemma_spawn_fits(self.active_piece);
            lemma_clear_empty_grid();
            lemma_bumped_swap(old(self).board.change_count(), 1, old(self).piece_changes as int);
            lemma_bumped_sum(old(self)@.changes, 1, 1);
            lemma_bumped_sum(old(self)@.changes, 2, 1);
        }
    }

    /// Starts a new game with a randomly drawn next piece.
    pub fn new_game(&mut self)
        requires
            old(self)@.next.wf(),
        ensures
            final(self).wf(),
            exists|fresh: Block| fresh.is_fresh() && final(self)@ == #[trigger] old(self)@.reset(fresh),
    {
        let fresh = Block::rand();
        self.new_game_with(fresh);
    }

    /// Locks the active piece with the given pieces in place of random
    /// draws: see [`GameView::locked`].
    pub fn freeze_piece_and_have_next_with(&mut self, fresh: Block, spare: Block)
        requires
            old(self).wf(),
            old(self)@.lock_fits(),
            fresh.wf(),
            spare.wf(),
        ensures
            final(self).wf(),
            final(self)@ == old(self)@.locked(fresh, spare),
    {
        if self.lock_active(fresh) {
            // The piece that has just come into play already collides: the
            // game is over.
            self.new_game_with(spare);
        }
    }

    /// Locks the active piece: freezes it into the board, removes and scores
    /// the full rows, brings the next piece into play and draws a new next
    /// piece. When the piece that comes into play collides at once, the game
    /// is over and a new game starts, with every statistic at zero.
    pub fn freeze_piece_and_have_next(&mut self)
        requires
            old(self).wf(),
            old(self)@.lock_fits(),
        ensures
            final(self).wf(),
            exists|fresh: Block, spare: Block|
                fresh.is_fresh() && spare.is_fresh() && final(self)@ == #[trigger] old(self)@.locked(
                    fresh,
                    spare,
                ),
    {
        let fresh = Block::rand();
        if self.lock_active(fresh) {
            let spare = Block::rand();
            self.new_game_with(spare);
            assert(self@ == old(self)@.locked(fresh, spare));
        } else {
            assert(self@ == old(self)@.locked(fresh, fresh));
        }
    }

    /// Lowers the active piece with the given pieces in place of random
    /// draws: see [`GameView::lowered`].
    pub fn try_lower_piece_with(&mut self, fresh: Block, spare: Block)
        requires
            old(self).wf(),
            old(self)@.lowering_fits(),
            fresh.wf(),
            spare.wf(),
        ensures
            final(self).wf(),
            final(self)@ == old(self)@.lowered(fresh, spare),
    {
        if !self.try_descend() {
            self.freeze_piece_and_have_next_with(fresh, spare);
        }
    }

    /// Moves the active piece down by one row. When the piece is blocked
    /// below, the move is taken back and the piece locks.
    pub fn try_lower_piece(&mut self)
        requires
            old(self).wf(),
            old(self)@.lowering_fits(),
        ensures
            final(self).wf(),
            exists|fresh: Block, spare: Block|
                fresh.is_fresh() && spare.is_fresh() && final(self)@ == #[trigger] old(self)@.lowered(
                    fresh,
                    spare,
                ),
    {
        if !self.try_descend() {
            self.freeze_piece_and_have_next();
            proof {
                let (fresh, spare) = choose|fresh: Block, spare: Block|
                    fresh.is_fresh() && spare.is_fresh() && self@ == #[trigger] old(self)@.locked(
                        fresh,
                        spare,
                    );
                assert(self@ == old(self)@.lowered(fresh, spare));
            }
        } else {
            assert(self@ == old(self)@.lowered(sample_piece(), sample_piece()));
        }
    }

    /// Applies one input with the given pieces in place of random draws:
    /// see [`GameView::after_input`].
    pub fn handle_input_with(&mut self, input: &UserInput, fresh: Block, spare: Block)
        requires
            old(self).wf(),
            old(self)@.input_fits(*input),
            fresh.wf(),
            spare.wf(),
        ensures
            final(self).wf(),
            final(self)@ == old(self)@.after_input(*input, fresh, spare),
    {
        match input {
            UserInput::MoveLeft => self.try_move_piece_horizontally(-1),
            UserInput::MoveRight => self.try_move_piece_horizontally(1),
            UserInput::MoveDown => self.try_lower_piece_with(fresh, spare),
            UserInput::DropDown => self.drop_piece(),
            UserInput::RotateLeft => self.try_rotate_piece(-1),
            UserInput::RotateRight => self.try_rotate_piece(1),
            UserInput::Reset => self.new_game_with(fresh),
            UserInput::NoInput => (),
        }
    }

    /// Applies one input. Every input succeeds; what it did shows in the
    /// state. A lock or a reset that the input leads to draws its pieces at
    /// random.
    pub fn handle_input(&mut self, input: &UserInput)
        requires
            old(self).wf(),
            old(self)@.input_fits(*input),
        ensures
            final(self).wf(),
            exists|fresh: Block, spare: Block|
                fresh.is_fresh() && spare.is_fresh() && final(self)@ == #[trigger] old(
                    self,
                )@.after_input(*input, fresh, spare),
    {
        match input {
            UserInput::MoveLeft => self.try_move_piece_horizontally(-1),
            UserInput::MoveRight => self.try_move_piece_horizontally(1),
            UserInput::MoveDown => {
                self.try_lower_piece();
                proof {
                    let (fresh, spare) = choose|fresh: Block, spare: Block|
                        fresh.is_fresh() && spare.is_fresh() && self@ == #[trigger] old(self)@.lowered(
                            fresh,
                            spare,
                        );
                    assert(self@ == old(self)@.after_input(*input, fresh, spare));
                }
                return;
            },
            UserInput::DropDown => self.drop_piece(),
            UserInput::RotateLeft => self.try_rotate_piece(-1),
            UserInput::RotateRight => self.try_rotate_piece(1),
            UserInput::Reset => {
                self.new_game();
                let ghost fresh = choose|fresh: Block|
                    fresh.is_fresh() && self@ == #[trigger] old(self)@.reset(fresh);
                assert(self@ == old(self)@.after_input(*input, fresh, fresh));
                return;
            },
            UserInput::NoInput => (),
        }
        assert(self@ == old(self)@.after_input(*input, sample_piece(), sample_piece()));
    }

    /// Advances the descent timer by one step with the given pieces in place
    /// of random draws: see [`GameView::after_step`].
    pub fn step_with(&mut self, fresh: Block, spare: Block)
        requires
            old(self).wf(),
            old(self)@.step_fits(),
            fresh.wf(),
            spare.wf(),
        ensures
            final(self).wf(),
            final(self)@ == old(self)@.after_step(fresh, spare),
    {
        if self.time_to_step <= 1 {
            self.try_lower_piece_with(fresh, spare);
            self.time_to_step = self.step_interval;
        } else {
            self.time_to_step = self.time_to_step - 1;
        }
    }

    /// Advances the descent timer by one step. The timer counts down; the
    /// step that brings it to zero lowers the active piece, as the input
    /// `MoveDown` does, and restarts the timer.
    pub fn step(&mut self)
        requires
            old(self).wf(),
            old(self)@.step_fits(),
        ensures
            final(self).wf(),
            exists|fresh: Block, spare: Block|
                fresh.is_fresh() && spare.is_fresh() && final(self)@ == #[trigger] old(self)@.after_step(
                    fresh,
                    spare,
                ),
    {
        if self.time_to_step <= 1 {
            self.try_lower_piece();
            let ghost lowered = self@;
            self.time_to_step = self.step_interval;
            proof {
                let (fresh, spare) = choose|fresh: Block, spare: Block|
                    fresh.is_fresh() && spare.is_fresh() && lowered == #[trigger] old(self)@.lowered(
                        fresh,
                        spare,
                    );
                assert(self@ == old(self)@.after_step(fresh, spare));
            }
        } else {
            self.time_to_step = self.time_to_step - 1;
            assert(self@ == old(self)@.after_step(sample_piece(), sample_piece()));
        }
    }

    /// A game that starts from the given board, pieces and statistics, with
    /// the descent timer at its full interval. There is such a game exactly
    /// when the board has no full row, both pieces carry a locked color and
    /// the active piece does not collide.
    pub fn from_parts(board: Board, active_piece: Block, next_piece: Block, stats: Stats) -> (game:
        Option<Game>)
        requires
            board.wf(),
        ensures
            game is Some <==> (GameView {
                board: board@,
                active: active_piece,
                next: next_piece,
                stats,
                time_to_step: STEP_INTERVAL,
                step_interval: STEP_INTERVAL,
                changes: board.change_count(),
            }).wf(),
            game matches Some(g) ==> g@ == (GameView {
                board: board@,
                active: active_piece,
                next: next_piece,
                stats,
                time_to_step: STEP_INTERVAL,
                step_interval: STEP_INTERVAL,
                changes: board.change_count(),
            }),
    {
        if !active_piece.color.is_color() || !next_piece.color.is_color() {
            return None;
        }
        if board.has_full_row() || board.collides(&active_piece) {
            return None;
        }
        proof {
            lemma_bumped_sum(board.change_count(), 0, 0);
        }
        Some(
            Game {
                time_to_step: STEP_INTERVAL,
                step_interval: STEP_INTERVAL,
                board,
                active_piece,
                next_piece,
                stats,
                piece_changes: 0,
            },
        )
    }

    /// Timer steps left until the next forced descent.
    pub fn time_to_step(&self) -> (steps: u32)
        ensures
            steps == self@.time_to_step,
    {
        self.time_to_step
    }

    pub fn current_board(&self) -> (board: &Board)
        ensures
            board@ == self@.board,
    {
        &self.board
    }

    pub fn active_piece(&self) -> (block: &Block)
        ensures
            *block == self@.active,
    {
        &self.active_piece
    }

    pub fn next_piece(&self) -> (block: &Block)
        ensures
            *block == self@.next,
    {
        &self.next_piece
    }

    pub fn stats(&self) -> (stats: &Stats)
        ensures
            *stats == self@.stats,
    {
        &self.stats
    }
}

/// A piece comes to rest after one number of rows only.
pub proof fn lemma_rest_unique(v: GameView, k1: int, k2: int)
    requires
        v.rests_after(k1),
        v.rests_after(k2),
    ensures
        k1 == k2,
{
    if k1 < k2 {
        assert(!collides(v.board, v.active.moved(0, k1 + 1)));
    }
    if k2 < k1 {
        assert(!collides(v.board, v.active.moved(0, k2 + 1)));
    }
}

/// A rejected move is no move at all: when the moved or turned piece
/// collides, the state after the attempt is the state before it, piece,
/// board, statistics and change counter alike. A committed move touches the
/// active piece and the change counter only.
pub proof fn lemma_rejected_move_changes_nothing(v: GameView, d: int)
    ensures
        collides(v.board, v.active.moved(d, 0)) ==> v.shifted(d) == v,
        !v.active.can_move(d, 0) ==> v.shifted(d) == v,
        collides(v.board, v.active.turned(d)) ==> v.turned(d) == v,
        v.shifted(d).board == v.board && v.shifted(d).stats == v.stats && v.shifted(d).next == v.next,
        v.turned(d).board == v.board && v.turned(d).stats == v.stats && v.turned(d).next == v.next,
        v.turned(d).active.pos == v.active.pos,
{
}

/// A well-formed state has exactly one resting place below the active
/// piece, fewer rows down than the board is high plus three.
pub proof fn lemma_rest_exists(v: GameView)
    requires
        v.wf(),
    ensures
        v.rests_after(v.drop_distance()),
        0 <= v.drop_distance() < BOARD_DIM_Y + 3,
{
    let k = lemma_rest_from(v, 0);
    lemma_free_piece_in_grid(v.board, v.active);
    lemma_free_piece_in_grid(v.board, v.active.moved(0, k));
}

/// Searches downwards for the resting place, from `j` rows down on.
proof fn lemma_rest_from(v: GameView, j: int) -> (k: int)
    requires
        grid_wf(v.board),
        0 <= j,
        v.active.can_move(0, j),
        forall|i: int| 0 <= i <= j ==> !collides(v.board, #[trigger] v.active.moved(0, i)),
    ensures
        v.rests_after(k),
        v.active.can_move(0, k),
        j <= k,
    decreases BOARD_DIM_Y - (v.active.pos.1 + j),
{
    lemma_free_piece_in_grid(v.board, v.active.moved(0, j));
    if collides(v.board, v.active.moved(0, j + 1)) {
        j
    } else {
        lemma_free_piece_in_grid(v.board, v.active.moved(0, j + 1));
        lemma_rest_from(v, j + 1)
    }
}

/// A hard drop leaves the piece where it cannot descend, does not lock it,
/// and a second hard drop changes nothing more.
pub proof fn lemma_drop_comes_to_rest(v: GameView)
    requires
        v.wf(),
    ensures
        v.dropped().wf(),
        !v.dropped().can_descend(),
        v.dropped().board == v.board,
        v.dropped().stats == v.stats,
        v.dropped().next == v.next,
        v.dropped().dropped() == v.dropped(),
{
    lemma_rest_exists(v);
    let k = v.drop_distance();
    let d = v.dropped();
    lemma_free_piece_in_grid(v.board, v.active);
    lemma_free_piece_in_grid(v.board, v.active.moved(0, k));
    assert(d.active.moved(0, 1) == v.active.moved(0, k + 1));
    assert(d.active.moved(0, 0) == d.active);
    assert(d.rests_after(0));
    lemma_rest_exists(d);
    lemma_rest_unique(d, 0, d.drop_distance());
    lemma_bumped_sum(d.changes, 0, 0);
}

/// When the piece that comes into play at a lock is blocked, the game ends
/// in a reset: the board is empty, every statistic is zero, the piece drawn
/// at the lock comes into play and the spare one is next.
pub proof fn lemma_blocked_spawn_resets(v: GameView, fresh: Block, spare: Block)
    requires
        v.promoted(fresh).spawn_blocked(),
    ensures
        v.locked(fresh, spare).board == empty_grid(),
        v.locked(fresh, spare).stats == Stats::zero(),
        v.locked(fresh, spare).active == Block::respawned_as(fresh),
        v.locked(fresh, spare).next == spare,
        fresh.wf() && spare.wf() ==> v.locked(fresh, spare).wf(),
{
    lemma_spawn_fits(Block::respawned_as(fresh));
    lemma_clear_empty_grid();
}

/// A lock after which play goes on scores the rows that it completed, four
/// at most: for two rows the total goes up by two and the two-row counter by
/// one, and no other counter changes.
pub proof fn lemma_lock_scores_rows(v: GameView, fresh: Block, spare: Block)
    requires
        v.wf(),
        v.lock_fits(),
        !v.promoted(fresh).spawn_blocked(),
    ensures
        v.rows_completed() <= 4,
        v.locked(fresh, spare).stats == v.stats.with_rows(v.rows_completed() as int),
        v.locked(fresh, spare).stats.cleared == v.stats.cleared + v.rows_completed(),
        v.rows_completed() == 2 ==> {
            &&& v.locked(fresh, spare).stats.clr_cmb_2 == v.stats.clr_cmb_2 + 1
            &&& v.locked(fresh, spare).stats.clr_cmb_1 == v.stats.clr_cmb_1
            &&& v.locked(fresh, spare).stats.clr_cmb_3 == v.stats.clr_cmb_3
            &&& v.locked(fresh, spare).stats.clr_cmb_4 == v.stats.clr_cmb_4
        },
        v.locked(fresh, spare).board == cleared(frozen(v.board, v.active)),
        v.locked(fresh, spare).active == Block::respawned_as(v.next),
        v.locked(fresh, spare).next == fresh,
{
    lemma_frozen_full_rows(v.board, v.active);
}

/// Statistics with room for any lock fit every input and every timer step.
pub proof fn lemma_room_fits(v: GameView, input: UserInput)
    requires
        v.wf(),
        v.stats.has_room(),
    ensures
        v.lock_fits(),
        v.lowering_fits(),
        v.input_fits(input),
        v.step_fits(),
{
    lemma_frozen_full_rows(v.board, v.active);
}

/// A descent is forced every `step_interval` steps. With `t` steps left on
/// the timer, the first `t - 1` steps only count down and the step after
/// them lowers the piece and restarts the timer at the interval.
pub proof fn lemma_descent_every_interval(v: GameView, k: nat, fresh: Block, spare: Block)
    requires
        1 <= v.time_to_step,
        k <= v.time_to_step,
    ensures
        k < v.time_to_step ==> v.after_steps(k, fresh, spare) == (GameView {
            time_to_step: (v.time_to_step - k) as u32,
            ..v
        }),
        k == v.time_to_step ==> v.after_steps(k, fresh, spare) == (GameView {
            time_to_step: v.step_interval,
            ..v.lowered(fresh, spare)
        }),
    decreases k,
{
    if k > 0 {
        lemma_descent_every_interval(v, (k - 1) as nat, fresh, spare);
    }
}

/// Every transition keeps the state well formed: the grid never stores the
/// out-of-board sentinel, no full row outlives a lock, and the active piece
/// never rests inside a wall or a locked cell.
pub proof fn lemma_transitions_keep_wf(v: GameView, input: UserInput, fresh: Block, spare: Block)
    requires
        v.wf(),
        fresh.wf(),
        spare.wf(),
    ensures
        v.after_input(input, fresh, spare).wf(),
        v.after_step(fresh, spare).wf(),
{
    lemma_locked_wf(v, fresh, spare);
    lemma_reset_wf(v, fresh);
    lemma_drop_comes_to_rest(v);
}

/// A reset gives a well-formed state.
proof fn lemma_reset_wf(v: GameView, fresh: Block)
    requires
        v.next.wf(),
        fresh.wf(),
    ensures
        v.reset(fresh).wf(),
{
    lemma_spawn_fits(Block::respawned_as(v.next));
    lemma_clear_empty_grid();
}

/// A lock gives a well-formed state.
proof fn lemma_locked_wf(v: GameView, fresh: Block, spare: Block)
    requires
        v.wf(),
        fresh.wf(),
        spare.wf(),
    ensures
        v.locked(fresh, spare).wf(),
{
    lemma_frozen_wf(v.board, v.active);
    lemma_cleared_has_no_full_rows(frozen(v.board, v.active));
    lemma_reset_wf(v.promoted(fresh), spare);
}

/// The change counter notices every change: a transition that leaves the
/// counter as it was has left the whole state as it was.
pub proof fn lemma_changes_are_noticed(v: GameView, input: UserInput, fresh: Block, spare: Block)
    requires
        v.wf(),
    ensures
        v.after_input(input, fresh, spare).changes == v.changes ==> v.after_input(input, fresh, spare)
            == v,
{
    let rows = full_row_count(frozen(v.board, v.active)) as int;
    lemma_frozen_full_rows(v.board, v.active);
    lemma_rest_exists(v);
    lemma_bumped_differs(v.changes, 1);
    lemma_bumped_differs(v.changes, 3);
    lemma_bumped_differs(v.changes, rows + 4);
    lemma_bumped_differs(v.changes, rows + 7);
    lemma_bumped_sum(v.changes, rows + 4, 3);
    let k = v.drop_distance();
    if k > 0 {
        lemma_bumped_differs(v.changes, k);
    } else {
        lemma_bumped_sum(v.changes, 0, 0);
        lemma_free_piece_in_grid(v.board, v.active);
        assert(v.active.moved(0, 0) == v.active);
    }
}

/// Some piece in spawn state, to stand for a draw that a transition ignores.
spec fn sample_piece() -> Block {
    Block {
        block_type: BlockType::I,
        rotation: BlockRot::Rot0,
        pos: (SPAWN_X, SPAWN_Y),
        color: CellVal::Color1,
    }
}

/// Advancing a counter by `a` and then by `b` is advancing it by `b` and
/// then by `a`.
proof fn lemma_bumped_swap(c: u32, a: int, b: int)
    requires
        0 <= a,
        0 <= b,
    ensures
        bumped(bumped(c, a), b) == bumped(bumped(c, b), a),
{
    lemma_bumped_sum(c, a, b);
    lemma_bumped_sum(c, b, a);
}

} // verus!
