use noughts_and_crosses::movement::{
    restore_cursor, MOVE_DOWN, MOVE_LEFT, MOVE_RIGHT, MOVE_UP, PLACE,
};
use noughts_and_crosses::{
    process_movement, Cursor, GameBoard, MovementReturn, Players, TileStatus,
};

const X: TileStatus = TileStatus::Cross(Cursor::False);
const O: TileStatus = TileStatus::Nought(Cursor::False);
const E: TileStatus = TileStatus::Empty;
const C: TileStatus = TileStatus::Cursor;
const XC: TileStatus = TileStatus::Cross(Cursor::True);
const OC: TileStatus = TileStatus::Nought(Cursor::True);

const REJECTED: MovementReturn = MovementReturn { game_board: None, placed: false };

fn cells(cells: [TileStatus; 9]) -> GameBoard {
    GameBoard {
        row_one: [cells[0], cells[1], cells[2]],
        row_two: [cells[3], cells[4], cells[5]],
        row_three: [cells[6], cells[7], cells[8]],
    }
}

fn cursor_at(k: usize) -> GameBoard {
    cells([E; 9]).with_tile(k, C)
}

fn moved(board: GameBoard) -> MovementReturn {
    MovementReturn { game_board: Some(board), placed: false }
}

#[test]
fn input_codes() {
    assert_eq!(MOVE_UP, 8);
    assert_eq!(MOVE_DOWN, 2);
    assert_eq!(MOVE_LEFT, 4);
    assert_eq!(MOVE_RIGHT, 6);
    assert_eq!(PLACE, 5);
}

#[test]
fn moving_off_the_top_left_corner_is_rejected() {
    let board = GameBoard::new();
    assert_eq!(process_movement(board, Players::Cross, 8), REJECTED);
    assert_eq!(process_movement(board, Players::Cross, 4), REJECTED);
}

#[test]
fn moving_off_any_edge_is_rejected() {
    for col in 0..3 {
        assert_eq!(process_movement(cursor_at(col), Players::Cross, 8), REJECTED);
        assert_eq!(process_movement(cursor_at(6 + col), Players::Nought, 2), REJECTED);
    }
    for row in 0..3 {
        assert_eq!(process_movement(cursor_at(3 * row), Players::Cross, 4), REJECTED);
        assert_eq!(process_movement(cursor_at(3 * row + 2), Players::Nought, 6), REJECTED);
    }
}

#[test]
fn the_cursor_does_not_wrap_round() {
    // Right of the last column is not the first cell of the next row.
    assert_eq!(process_movement(cursor_at(2), Players::Cross, 6).game_board, None);
    assert_eq!(process_movement(cursor_at(3), Players::Cross, 4).game_board, None);
    assert_eq!(process_movement(cursor_at(8), Players::Cross, 2).game_board, None);
}

#[test]
fn steps_from_the_centre() {
    let centre = cursor_at(4);
    assert_eq!(process_movement(centre, Players::Cross, 8), moved(cursor_at(1)));
    assert_eq!(process_movement(centre, Players::Cross, 2), moved(cursor_at(7)));
    assert_eq!(process_movement(centre, Players::Cross, 4), moved(cursor_at(3)));
    assert_eq!(process_movement(centre, Players::Cross, 6), moved(cursor_at(5)));
}

#[test]
fn every_step_inside_the_grid_is_accepted() {
    for k in 0..9usize {
        let (row, col) = (k / 3, k % 3);
        let board = cursor_at(k);
        if row > 0 {
            assert_eq!(process_movement(board, Players::Nought, 8), moved(cursor_at(k - 3)));
        }
        if row < 2 {
            assert_eq!(process_movement(board, Players::Nought, 2), moved(cursor_at(k + 3)));
        }
        if col > 0 {
            assert_eq!(process_movement(board, Players::Nought, 4), moved(cursor_at(k - 1)));
        }
        if col < 2 {
            assert_eq!(process_movement(board, Players::Nought, 6), moved(cursor_at(k + 1)));
        }
    }
}

#[test]
fn the_cursor_moves_onto_a_marked_cell_and_off_it_again() {
    let board = cells([C, X, O, E, E, E, E, E, E]);
    let on_cross = process_movement(board, Players::Nought, 6);
    assert_eq!(on_cross, moved(cells([E, XC, O, E, E, E, E, E, E])));
    let on_nought = process_movement(on_cross.game_board.unwrap(), Players::Nought, 6);
    assert_eq!(on_nought, moved(cells([E, X, OC, E, E, E, E, E, E])));
    let below = process_movement(on_nought.game_board.unwrap(), Players::Nought, 2);
    assert_eq!(below, moved(cells([E, X, O, E, E, C, E, E, E])));
}

#[test]
fn placing_on_the_empty_cursor_cell_marks_it_for_cross() {
    let answer = process_movement(cursor_at(4), Players::Cross, 5);
    assert!(answer.placed);
    assert_eq!(answer.game_board, Some(cells([E, E, E, E, X, E, E, E, E])));
}

#[test]
fn placing_on_the_empty_cursor_cell_marks_it_for_nought() {
    let answer = process_movement(cells([X, E, E, E, E, E, E, E, C]), Players::Nought, 5);
    assert!(answer.placed);
    assert_eq!(answer.game_board, Some(cells([X, E, E, E, E, E, E, E, O])));
}

#[test]
fn placing_on_a_marked_cell_is_rejected() {
    assert_eq!(process_movement(cells([E, XC, E, E, E, E, E, E, E]), Players::Nought, 5), REJECTED);
    assert_eq!(process_movement(cells([E, OC, E, E, E, E, E, E, E]), Players::Nought, 5), REJECTED);
    assert_eq!(process_movement(cells([E, OC, E, E, E, E, E, E, E]), Players::Cross, 5), REJECTED);
}

#[test]
fn unknown_inputs_are_rejected() {
    for input in [0u32, 1, 3, 7, 9, 10, 55, 88, u32::MAX] {
        assert_eq!(process_movement(cursor_at(4), Players::Cross, input), REJECTED);
    }
}

#[test]
fn first_placement_of_a_game_leaves_cross_top_left_and_no_cursor() {
    let answer = process_movement(GameBoard::new(), Players::Cross, 5);
    assert!(answer.placed);
    let board = answer.game_board.unwrap();
    assert_eq!(board.cell_at(0, 0), X);
    for k in 1..9 {
        assert_eq!(board.tile(k), E);
    }
    for k in 0..9 {
        assert!(!board.tile(k).has_cursor());
    }
    assert!(board.cursor_position().is_err());
}

#[test]
fn restore_cursor_takes_the_first_unmarked_cell() {
    assert_eq!(
        restore_cursor(cells([X, E, E, E, E, E, E, E, E])),
        cells([X, C, E, E, E, E, E, E, E])
    );
    assert_eq!(
        restore_cursor(cells([X, O, X, O, E, E, E, E, E])),
        cells([X, O, X, O, C, E, E, E, E])
    );
    assert_eq!(restore_cursor(cells([E; 9])), GameBoard::new());
}

#[test]
fn restore_cursor_leaves_a_board_with_a_cursor_alone() {
    let board = cells([E, E, X, E, OC, E, E, E, E]);
    assert_eq!(restore_cursor(board), board);
    assert_eq!(restore_cursor(cursor_at(7)), cursor_at(7));
}

#[test]
fn restore_cursor_leaves_a_full_board_alone() {
    let full = cells([X, O, X, X, O, O, O, X, X]);
    assert_eq!(restore_cursor(full), full);
}

#[test]
fn a_step_keeps_one_cursor_and_every_mark() {
    let start = cells([X, O, E, E, C, E, O, E, X]);
    for input in [2u32, 4, 6, 8] {
        let after = process_movement(start, Players::Cross, input).game_board.unwrap();
        let cursors = (0..9).filter(|&k| after.tile(k).has_cursor()).count();
        assert_eq!(cursors, 1);
        for k in 0..9 {
            assert_eq!(after.tile(k).owner(), start.tile(k).owner());
        }
    }
}
