use rustris::block::{Block, SPAWN_X, SPAWN_Y};
use rustris::common::{BlockRot, BlockType, CellVal};
use rustris::pattern::{next_rotation, pattern_3x3, pattern_4x4, probe, tetromino};

const ALL_TYPES: [BlockType; 7] = [
    BlockType::I,
    BlockType::O,
    BlockType::T,
    BlockType::J,
    BlockType::L,
    BlockType::S,
    BlockType::Z,
];

const ALL_ROTS: [BlockRot; 4] = [BlockRot::Rot0, BlockRot::Rot1, BlockRot::Rot2, BlockRot::Rot3];

fn piece(block_type: BlockType, rotation: BlockRot, pos: (i32, i32)) -> Block {
    Block { block_type, rotation, pos, color: CellVal::Color3 }
}

#[test]
fn i_piece_masks_are_exact() {
    assert_eq!(
        pattern_4x4(&BlockType::I, &BlockRot::Rot0),
        [[0, 0, 0, 0], [1, 1, 1, 1], [0, 0, 0, 0], [0, 0, 0, 0]]
    );
    assert_eq!(
        pattern_4x4(&BlockType::I, &BlockRot::Rot1),
        [[0, 0, 1, 0], [0, 0, 1, 0], [0, 0, 1, 0], [0, 0, 1, 0]]
    );
    assert_eq!(
        pattern_4x4(&BlockType::I, &BlockRot::Rot2),
        [[0, 0, 0, 0], [0, 0, 0, 0], [1, 1, 1, 1], [0, 0, 0, 0]]
    );
    assert_eq!(
        pattern_4x4(&BlockType::I, &BlockRot::Rot3),
        [[0, 1, 0, 0], [0, 1, 0, 0], [0, 1, 0, 0], [0, 1, 0, 0]]
    );
}

#[test]
fn o_piece_mask_is_the_same_in_every_rotation() {
    for rot in ALL_ROTS.iter() {
        assert_eq!(
            pattern_4x4(&BlockType::O, rot),
            [[0, 0, 0, 0], [0, 1, 1, 0], [0, 1, 1, 0], [0, 0, 0, 0]]
        );
    }
}

#[test]
fn three_by_three_masks_are_exact() {
    assert_eq!(pattern_3x3(&BlockType::T, &BlockRot::Rot0), [[0, 1, 0], [1, 1, 1], [0, 0, 0]]);
    assert_eq!(pattern_3x3(&BlockType::T, &BlockRot::Rot1), [[0, 1, 0], [0, 1, 1], [0, 1, 0]]);
    assert_eq!(pattern_3x3(&BlockType::T, &BlockRot::Rot2), [[0, 0, 0], [1, 1, 1], [0, 1, 0]]);
    assert_eq!(pattern_3x3(&BlockType::T, &BlockRot::Rot3), [[0, 1, 0], [1, 1, 0], [0, 1, 0]]);
    assert_eq!(pattern_3x3(&BlockType::J, &BlockRot::Rot0), [[1, 0, 0], [1, 1, 1], [0, 0, 0]]);
    assert_eq!(pattern_3x3(&BlockType::J, &BlockRot::Rot1), [[0, 1, 1], [0, 1, 0], [0, 1, 0]]);
    assert_eq!(pattern_3x3(&BlockType::J, &BlockRot::Rot2), [[0, 0, 0], [1, 1, 1], [0, 0, 1]]);
    assert_eq!(pattern_3x3(&BlockType::J, &BlockRot::Rot3), [[0, 1, 0], [0, 1, 0], [1, 1, 0]]);
    assert_eq!(pattern_3x3(&BlockType::L, &BlockRot::Rot0), [[0, 0, 1], [1, 1, 1], [0, 0, 0]]);
    assert_eq!(pattern_3x3(&BlockType::L, &BlockRot::Rot1), [[0, 1, 0], [0, 1, 0], [0, 1, 1]]);
    assert_eq!(pattern_3x3(&BlockType::L, &BlockRot::Rot2), [[0, 0, 0], [1, 1, 1], [1, 0, 0]]);
    assert_eq!(pattern_3x3(&BlockType::L, &BlockRot::Rot3), [[1, 1, 0], [0, 1, 0], [0, 1, 0]]);
    assert_eq!(pattern_3x3(&BlockType::S, &BlockRot::Rot0), [[0, 1, 1], [1, 1, 0], [0, 0, 0]]);
    assert_eq!(pattern_3x3(&BlockType::S, &BlockRot::Rot1), [[0, 1, 0], [0, 1, 1], [0, 0, 1]]);
    assert_eq!(pattern_3x3(&BlockType::S, &BlockRot::Rot2), [[0, 0, 0], [0, 1, 1], [1, 1, 0]]);
    assert_eq!(pattern_3x3(&BlockType::S, &BlockRot::Rot3), [[1, 0, 0], [1, 1, 0], [0, 1, 0]]);
    assert_eq!(pattern_3x3(&BlockType::Z, &BlockRot::Rot0), [[1, 1, 0], [0, 1, 1], [0, 0, 0]]);
    assert_eq!(pattern_3x3(&BlockType::Z, &BlockRot::Rot1), [[0, 0, 1], [0, 1, 1], [0, 1, 0]]);
    assert_eq!(pattern_3x3(&BlockType::Z, &BlockRot::Rot2), [[0, 0, 0], [1, 1, 0], [0, 1, 1]]);
    assert_eq!(pattern_3x3(&BlockType::Z, &BlockRot::Rot3), [[0, 1, 0], [1, 1, 0], [1, 0, 0]]);
}

#[test]
fn uniform_window_agrees_with_probe() {
    for t in ALL_TYPES.iter() {
        for r in ALL_ROTS.iter() {
            let window = tetromino(t, r);
            let mut covered = 0;
            for y in 0..4 {
                for x in 0..4 {
                    let hit = probe(t, r, x, y);
                    assert_eq!(window[y as usize][x as usize] == 1, hit);
                    if hit {
                        covered += 1;
                    }
                }
            }
            assert_eq!(covered, 4);
        }
    }
}

#[test]
fn uniform_window_pads_three_by_three_shapes() {
    assert_eq!(
        tetromino(&BlockType::T, &BlockRot::Rot0),
        [[0, 1, 0, 0], [1, 1, 1, 0], [0, 0, 0, 0], [0, 0, 0, 0]]
    );
    assert_eq!(
        tetromino(&BlockType::Z, &BlockRot::Rot3),
        [[0, 1, 0, 0], [1, 1, 0, 0], [1, 0, 0, 0], [0, 0, 0, 0]]
    );
}

#[test]
fn probe_is_false_outside_the_box() {
    for t in ALL_TYPES.iter() {
        for r in ALL_ROTS.iter() {
            assert!(!probe(t, r, -1, 0));
            assert!(!probe(t, r, 0, -1));
            assert!(!probe(t, r, 4, 1));
            assert!(!probe(t, r, 1, 4));
            assert!(!probe(t, r, i32::MIN, i32::MIN));
            assert!(!probe(t, r, i32::MAX, i32::MAX));
        }
    }
    // A 3x3 shape never reaches the fourth row or column of the window.
    assert!(!probe(&BlockType::T, &BlockRot::Rot0, 3, 1));
    assert!(!probe(&BlockType::L, &BlockRot::Rot1, 1, 3));
    // The I piece does.
    assert!(probe(&BlockType::I, &BlockRot::Rot0, 3, 1));
    assert!(probe(&BlockType::I, &BlockRot::Rot1, 2, 3));
}

#[test]
fn next_rotation_steps_through_the_cycle() {
    assert_eq!(next_rotation(BlockRot::Rot0, 1), BlockRot::Rot1);
    assert_eq!(next_rotation(BlockRot::Rot1, 1), BlockRot::Rot2);
    assert_eq!(next_rotation(BlockRot::Rot2, 1), BlockRot::Rot3);
    assert_eq!(next_rotation(BlockRot::Rot3, 1), BlockRot::Rot0);
    assert_eq!(next_rotation(BlockRot::Rot0, -1), BlockRot::Rot3);
    assert_eq!(next_rotation(BlockRot::Rot1, -1), BlockRot::Rot0);
    assert_eq!(next_rotation(BlockRot::Rot2, -1), BlockRot::Rot1);
    assert_eq!(next_rotation(BlockRot::Rot3, -1), BlockRot::Rot2);
    for r in ALL_ROTS.iter() {
        assert_eq!(next_rotation(*r, 0), *r);
    }
}

#[test]
fn four_quarter_turns_restore_the_piece() {
    for t in ALL_TYPES.iter() {
        for r in ALL_ROTS.iter() {
            let start = piece(*t, *r, (2, 5));
            let mut cw = start;
            let mut ccw = start;
            for turn in 1..=4 {
                cw.rotate(1);
                ccw.rotate(-1);
                if turn < 4 {
                    assert_ne!(cw.rotation, start.rotation);
                    assert_ne!(ccw.rotation, start.rotation);
                }
            }
            assert_eq!(cw, start);
            assert_eq!(ccw, start);
            for y in -1..5 {
                for x in -1..5 {
                    assert_eq!(cw.probe(x, y), start.probe(x, y));
                }
            }
        }
    }
}

#[test]
fn a_turn_and_its_opposite_cancel() {
    let start = piece(BlockType::S, BlockRot::Rot2, (0, 0));
    let mut b = start;
    b.rotate(1);
    assert_eq!(b.rotation, BlockRot::Rot3);
    b.rotate(-1);
    assert_eq!(b, start);
}

#[test]
fn translate_then_undo_restores_the_piece() {
    let start = piece(BlockType::J, BlockRot::Rot1, (4, 7));
    for dx in [-12, -1, 0, 1, 9] {
        let mut b = start;
        b.move_horizontally(dx);
        assert_eq!(b.pos, (4 + dx, 7));
        b.move_horizontally(-dx);
        assert_eq!(b, start);
    }
    for dy in [-3, 1, 25] {
        let mut b = start;
        b.move_vertically(dy);
        assert_eq!(b.pos, (4, 7 + dy));
        b.move_vertically(-dy);
        assert_eq!(b, start);
    }
}

#[test]
fn board_position_adds_the_offset() {
    let b = piece(BlockType::T, BlockRot::Rot0, (3, -2));
    assert_eq!(b.pos_to_board_pos(0, 0), (3, -2));
    assert_eq!(b.pos_to_board_pos(2, 3), (5, 1));
}

#[test]
fn probe_value_is_color_or_free() {
    let b = piece(BlockType::T, BlockRot::Rot0, (0, 0));
    assert_eq!(*b.probe_value(1, 0), CellVal::Color3);
    assert_eq!(*b.probe_value(0, 0), CellVal::Free);
    assert_eq!(*b.probe_value(-1, 0), CellVal::Free);
    assert_eq!(*b.probe_value(7, 7), CellVal::Free);
    assert_eq!(*b.color(), CellVal::Color3);
}

#[test]
fn replace_copies_shape_and_color_and_respawns() {
    let other = Block {
        block_type: BlockType::Z,
        rotation: BlockRot::Rot2,
        pos: (8, 15),
        color: CellVal::Color7,
    };
    let mut b = piece(BlockType::I, BlockRot::Rot3, (1, 1));
    b.replace(&other);
    assert_eq!(
        b,
        Block {
            block_type: BlockType::Z,
            rotation: BlockRot::Rot0,
            pos: (SPAWN_X, SPAWN_Y),
            color: CellVal::Color7,
        }
    );
    assert_eq!((SPAWN_X, SPAWN_Y), (3, 0));
}

#[test]
fn random_pieces_start_in_spawn_state() {
    for _ in 0..50 {
        let b = Block::rand();
        assert_eq!(b.rotation, BlockRot::Rot0);
        assert_eq!(b.pos, (3, 0));
        assert!(b.color.is_color());
    }
    let mut b = piece(BlockType::I, BlockRot::Rot2, (9, 9));
    b.replace_random();
    assert_eq!(b.rotation, BlockRot::Rot0);
    assert_eq!(b.pos, (3, 0));
    assert!(b.color.is_color());
}
