use rustris::block::Block;
use rustris::board::Board;
use rustris::common::{BlockRot, BlockType, CellVal};

fn piece(block_type: BlockType, rotation: BlockRot, pos: (i32, i32), color: CellVal) -> Block {
    Block { block_type, rotation, pos, color }
}

fn fill_row(board: &mut Board, y: i32, except: &[i32], color: CellVal) {
    for x in 0..10 {
        if !except.contains(&x) {
            board.set(x, y, color);
        }
    }
}

fn row(board: &Board, y: i32) -> Vec<CellVal> {
    (0..10).map(|x| board.at(x, y)).collect()
}

fn assert_empty(board: &Board) {
    for y in 0..20 {
        for x in 0..10 {
            assert_eq!(board.at(x, y), CellVal::Free);
        }
    }
}

#[test]
fn new_board_is_empty_ten_by_twenty() {
    let board = Board::new();
    assert_eq!(board.width(), 10);
    assert_eq!(board.height(), 20);
    assert_eq!(board.change_count(), 0);
    assert_empty(&board);
}

#[test]
fn at_outside_the_grid_is_the_sentinel() {
    let mut board = Board::new();
    for y in 0..20 {
        fill_row(&mut board, y, &[], CellVal::Color2);
    }
    for (x, y) in [
        (-1, 0),
        (0, -1),
        (10, 0),
        (0, 20),
        (10, 20),
        (-1, -1),
        (9, 20),
        (10, 19),
        (i32::MIN, 5),
        (i32::MAX, 5),
        (5, i32::MIN),
        (5, i32::MAX),
    ] {
        assert_eq!(board.at(x, y), CellVal::OutOfBoard);
    }
    for (x, y) in [(0, 0), (9, 0), (0, 19), (9, 19)] {
        assert_eq!(board.at(x, y), CellVal::Color2);
    }
}

#[test]
fn set_changes_one_cell_and_no_counter() {
    let mut board = Board::new();
    board.set(4, 7, CellVal::Color5);
    assert_eq!(board.change_count(), 0);
    for y in 0..20 {
        for x in 0..10 {
            let want = if (x, y) == (4, 7) { CellVal::Color5 } else { CellVal::Free };
            assert_eq!(board.at(x, y), want);
        }
    }
    board.set(4, 7, CellVal::Free);
    assert_empty(&board);
}

#[test]
fn inc_change_count_wraps() {
    let mut board = Board::new();
    board.inc_change_count();
    assert_eq!(board.change_count(), 1);
    board.inc_change_count();
    assert_eq!(board.change_count(), 2);
    assert_empty(&board);
}

#[test]
fn collides_with_edges_and_locked_cells() {
    let mut board = Board::new();
    // T in spawn orientation covers (1,0), (0,1), (1,1), (2,1) of its window.
    let t = |pos| piece(BlockType::T, BlockRot::Rot0, pos, CellVal::Color1);
    assert!(!board.collides(&t((0, 0))));
    assert!(!board.collides(&t((7, 18))));
    assert!(!board.collides(&t((0, -0))));
    assert!(board.collides(&t((-1, 0))));
    assert!(board.collides(&t((8, 0))));
    assert!(board.collides(&t((0, -1))));
    assert!(board.collides(&t((0, 19))));
    // The empty third row of the window may hang below the grid.
    assert!(!board.collides(&t((3, 18))));
    // A locked cell under an uncovered window cell is no collision.
    board.set(3, 5, CellVal::Color4);
    assert!(!board.collides(&t((3, 5))));
    // Under a covered window cell it is.
    board.set(4, 5, CellVal::Color4);
    assert!(board.collides(&t((3, 5))));
}

#[test]
fn collides_far_outside_the_grid() {
    let board = Board::new();
    for pos in [
        (i32::MAX, 0),
        (i32::MIN, 0),
        (0, i32::MAX),
        (0, i32::MIN),
        (i32::MAX, i32::MAX),
        (i32::MIN, i32::MIN),
        (i32::MAX - 1, 3),
    ] {
        assert!(board.collides(&piece(BlockType::O, BlockRot::Rot0, pos, CellVal::Color1)));
    }
}

#[test]
fn collides_gives_the_same_answer_twice() {
    let mut board = Board::new();
    board.set(5, 10, CellVal::Color6);
    for (pos, want) in [((3, 9), true), ((0, 0), false), ((9, 9), true)] {
        let b = piece(BlockType::I, BlockRot::Rot0, pos, CellVal::Color1);
        let first = board.collides(&b);
        let second = board.collides(&b);
        assert_eq!(first, want);
        assert_eq!(second, want);
    }
    assert_eq!(board.change_count(), 0);
}

#[test]
fn freeze_writes_the_color_into_covered_cells() {
    let mut board = Board::new();
    let s = piece(BlockType::S, BlockRot::Rot0, (2, 10), CellVal::Color7);
    board.freeze_block(&s);
    assert_eq!(board.change_count(), 1);
    // S covers (1,0), (2,0), (0,1), (1,1) of its window.
    let covered = [(3, 10), (4, 10), (2, 11), (3, 11)];
    for y in 0..20 {
        for x in 0..10 {
            let want = if covered.contains(&(x, y)) { CellVal::Color7 } else { CellVal::Free };
            assert_eq!(board.at(x, y), want);
        }
    }
}

#[test]
fn frozen_piece_blocks_a_new_piece_at_the_same_place() {
    for (t, r, pos) in [
        (BlockType::I, BlockRot::Rot1, (-2, 0)),
        (BlockType::I, BlockRot::Rot2, (3, 5)),
        (BlockType::O, BlockRot::Rot0, (7, 17)),
        (BlockType::L, BlockRot::Rot3, (0, 0)),
        (BlockType::Z, BlockRot::Rot0, (3, 0)),
    ] {
        let mut board = Board::new();
        let p = piece(t, r, pos, CellVal::Color2);
        assert!(!board.collides(&p));
        board.freeze_block(&p);
        let q = piece(t, r, pos, CellVal::Color5);
        assert!(board.collides(&q));
    }
}

#[test]
fn freeze_skips_cells_outside_the_grid_and_overwrites_inside() {
    let mut board = Board::new();
    board.set(0, 19, CellVal::Color1);
    // I upright in window column 2, hanging two rows below the grid.
    let i = piece(BlockType::I, BlockRot::Rot1, (-2, 18), CellVal::Color8);
    board.freeze_block(&i);
    assert_eq!(board.at(0, 18), CellVal::Color8);
    assert_eq!(board.at(0, 19), CellVal::Color8);
    let mut locked = 0;
    for y in 0..20 {
        for x in 0..10 {
            if board.at(x, y) != CellVal::Free {
                locked += 1;
            }
        }
    }
    assert_eq!(locked, 2);
    // A piece that lies outside altogether changes no cell.
    let far = piece(BlockType::O, BlockRot::Rot0, (i32::MAX, i32::MIN), CellVal::Color3);
    board.freeze_block(&far);
    assert_eq!(board.change_count(), 2);
}

#[test]
fn row_is_full_when_no_cell_is_free() {
    let mut board = Board::new();
    assert!(!board.is_row_full(0));
    assert!(!board.has_full_row());
    fill_row(&mut board, 7, &[9], CellVal::Color1);
    assert!(!board.is_row_full(7));
    assert!(!board.has_full_row());
    board.set(9, 7, CellVal::Color3);
    assert!(board.is_row_full(7));
    assert!(board.has_full_row());
    assert!(!board.is_row_full(6));
    assert!(!board.is_row_full(8));
}

#[test]
fn remove_row_shifts_the_rows_above_down() {
    let mut board = Board::new();
    board.set(0, 0, CellVal::Color1);
    board.set(1, 1, CellVal::Color2);
    board.set(2, 2, CellVal::Color3);
    board.set(3, 3, CellVal::Color4);
    board.remove_row(2);
    assert_eq!(board.change_count(), 1);
    assert_eq!(row(&board, 0), vec![CellVal::Free; 10]);
    assert_eq!(board.at(0, 1), CellVal::Color1);
    assert_eq!(board.at(1, 2), CellVal::Color2);
    assert_eq!(board.at(2, 2), CellVal::Free);
    assert_eq!(board.at(3, 3), CellVal::Color4);
    let mut locked = 0;
    for y in 0..20 {
        for x in 0..10 {
            if board.at(x, y) != CellVal::Free {
                locked += 1;
            }
        }
    }
    assert_eq!(locked, 3);
}

#[test]
fn remove_top_row_empties_it() {
    let mut board = Board::new();
    board.set(5, 0, CellVal::Color1);
    board.set(5, 1, CellVal::Color2);
    board.remove_row(0);
    assert_eq!(board.at(5, 0), CellVal::Free);
    assert_eq!(board.at(5, 1), CellVal::Color2);
}

#[test]
fn clear_full_rows_on_an_empty_board_does_nothing() {
    let mut board = Board::new();
    assert_eq!(board.clear_full_rows(), 0);
    assert_empty(&board);
    assert_eq!(board.change_count(), 1);
}

#[test]
fn clear_full_rows_without_a_full_row_keeps_the_cells() {
    let mut board = Board::new();
    fill_row(&mut board, 19, &[0], CellVal::Color4);
    fill_row(&mut board, 18, &[9], CellVal::Color5);
    let before: Vec<Vec<CellVal>> = (0..20).map(|y| row(&board, y)).collect();
    assert_eq!(board.clear_full_rows(), 0);
    let after: Vec<Vec<CellVal>> = (0..20).map(|y| row(&board, y)).collect();
    assert_eq!(before, after);
}

#[test]
fn clear_full_rows_removes_separated_rows() {
    let mut board = Board::new();
    // Rows 15, 17 and 19 are full; 14, 16 and 18 carry one marker each.
    fill_row(&mut board, 15, &[], CellVal::Color1);
    fill_row(&mut board, 17, &[], CellVal::Color2);
    fill_row(&mut board, 19, &[], CellVal::Color3);
    board.set(4, 14, CellVal::Color4);
    board.set(6, 16, CellVal::Color6);
    board.set(8, 18, CellVal::Color8);
    assert_eq!(board.clear_full_rows(), 3);
    // One change per removed row and one for the scan.
    assert_eq!(board.change_count(), 4);
    let mut want = vec![vec![CellVal::Free; 10]; 20];
    want[17][4] = CellVal::Color4;
    want[18][6] = CellVal::Color6;
    want[19][8] = CellVal::Color8;
    let after: Vec<Vec<CellVal>> = (0..20).map(|y| row(&board, y)).collect();
    assert_eq!(after, want);
    assert!(!board.has_full_row());
}

#[test]
fn clear_full_rows_on_a_full_board_empties_it() {
    let mut board = Board::new();
    for y in 0..20 {
        fill_row(&mut board, y, &[], CellVal::Color2);
    }
    assert_eq!(board.clear_full_rows(), 20);
    assert_empty(&board);
}

#[test]
fn upright_i_piece_completes_the_bottom_row() {
    let mut board = Board::new();
    fill_row(&mut board, 19, &[0], CellVal::Color4);
    board.set(7, 18, CellVal::Color6);
    // Upright I in window column 1, so window column 1 is board column 0.
    let i = piece(BlockType::I, BlockRot::Rot3, (-1, 16), CellVal::Color1);
    assert!(!board.collides(&i));
    board.freeze_block(&i);
    assert_eq!(board.clear_full_rows(), 1);
    // Rows 0..=18 have moved to 1..=19 and row 0 is empty.
    let mut want = vec![vec![CellVal::Free; 10]; 20];
    want[17][0] = CellVal::Color1;
    want[18][0] = CellVal::Color1;
    want[19][0] = CellVal::Color1;
    want[19][7] = CellVal::Color6;
    let after: Vec<Vec<CellVal>> = (0..20).map(|y| row(&board, y)).collect();
    assert_eq!(after, want);
}

#[test]
fn clear_resets_every_cell() {
    let mut board = Board::new();
    for y in 0..20 {
        fill_row(&mut board, y, &[(y % 10)], CellVal::Color3);
    }
    board.clear();
    assert_empty(&board);
    assert_eq!(board.change_count(), 1);
}
