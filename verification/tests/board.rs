use noughts_and_crosses::board::empty_cells;
use noughts_and_crosses::{
    is_board_full, no_player, switch_player, Cursor, GameBoard, NoCursorFound, Players, TileStatus,
};

const X: TileStatus = TileStatus::Cross(Cursor::False);
const O: TileStatus = TileStatus::Nought(Cursor::False);
const E: TileStatus = TileStatus::Empty;
const C: TileStatus = TileStatus::Cursor;

fn board(cells: [TileStatus; 9]) -> GameBoard {
    GameBoard {
        row_one: [cells[0], cells[1], cells[2]],
        row_two: [cells[3], cells[4], cells[5]],
        row_three: [cells[6], cells[7], cells[8]],
    }
}

#[test]
fn switch_player_alternates() {
    assert_eq!(switch_player(Players::Cross), Players::Nought);
    assert_eq!(switch_player(Players::Nought), Players::Cross);
    assert_eq!(switch_player(switch_player(Players::Cross)), Players::Cross);
}

#[test]
fn new_board_has_cursor_top_left_and_nothing_else() {
    let b = GameBoard::new();
    assert_eq!(b, board([C, E, E, E, E, E, E, E, E]));
    assert_eq!(b.cursor_position(), Ok((0, 0)));
    for k in 1..9 {
        assert_eq!(b.tile(k), E);
    }
}

#[test]
fn cell_at_reads_row_then_column() {
    let b = board([X, O, E, C, X, O, E, E, TileStatus::Nought(Cursor::True)]);
    assert_eq!(b.cell_at(0, 0), X);
    assert_eq!(b.cell_at(0, 1), O);
    assert_eq!(b.cell_at(0, 2), E);
    assert_eq!(b.cell_at(1, 0), C);
    assert_eq!(b.cell_at(1, 1), X);
    assert_eq!(b.cell_at(1, 2), O);
    assert_eq!(b.cell_at(2, 0), E);
    assert_eq!(b.cell_at(2, 2), TileStatus::Nought(Cursor::True));
    for row in 0..3 {
        for col in 0..3 {
            assert_eq!(b.cell_at(row, col), b.tile(3 * row + col));
        }
    }
}

#[test]
fn with_tile_replaces_one_cell() {
    let b = board([E; 9]);
    for k in 0..9 {
        let changed = b.with_tile(k, X);
        for j in 0..9 {
            assert_eq!(changed.tile(j), if j == k { X } else { E });
        }
    }
    assert_eq!(b.with_tile(4, O).row_two, [E, O, E]);
    assert_eq!(b.with_tile(8, O).row_three, [E, E, O]);
}

#[test]
fn cursor_position_finds_every_cell() {
    for k in 0..9 {
        let b = board([E; 9]).with_tile(k, C);
        assert_eq!(b.cursor_position(), Ok((k / 3, k % 3)));
        let over_mark = board([X; 9]).with_tile(k, TileStatus::Cross(Cursor::True));
        assert_eq!(over_mark.cursor_position(), Ok((k / 3, k % 3)));
        let over_nought = board([O; 9]).with_tile(k, TileStatus::Nought(Cursor::True));
        assert_eq!(over_nought.cursor_position(), Ok((k / 3, k % 3)));
    }
}

#[test]
fn cursor_position_is_the_first_in_row_major_order() {
    let b = board([E, E, E, E, C, E, E, TileStatus::Cross(Cursor::True), E]);
    assert_eq!(b.cursor_position(), Ok((1, 1)));
}

#[test]
fn cursor_position_fails_without_cursor() {
    assert_eq!(board([E; 9]).cursor_position(), Err(NoCursorFound));
    assert_eq!(board([X, O, X, O, X, O, E, E, E]).cursor_position(), Err(NoCursorFound));
}

#[test]
fn no_player_tells_marked_from_unmarked() {
    assert!(no_player(E));
    assert!(no_player(C));
    assert!(!no_player(X));
    assert!(!no_player(O));
    assert!(!no_player(TileStatus::Cross(Cursor::True)));
    assert!(!no_player(TileStatus::Nought(Cursor::True)));
}

#[test]
fn tile_helpers() {
    assert_eq!(X.owner(), Some(Players::Cross));
    assert_eq!(TileStatus::Nought(Cursor::True).owner(), Some(Players::Nought));
    assert_eq!(E.owner(), None);
    assert_eq!(C.owner(), None);
    assert!(C.has_cursor());
    assert!(TileStatus::Cross(Cursor::True).has_cursor());
    assert!(!X.has_cursor());
    assert!(!E.has_cursor());
    assert_eq!(E.with_cursor(), C);
    assert_eq!(C.with_cursor(), C);
    assert_eq!(X.with_cursor(), TileStatus::Cross(Cursor::True));
    assert_eq!(O.with_cursor(), TileStatus::Nought(Cursor::True));
    assert_eq!(C.without_cursor(), E);
    assert_eq!(E.without_cursor(), E);
    assert_eq!(TileStatus::Cross(Cursor::True).without_cursor(), X);
    assert_eq!(TileStatus::Nought(Cursor::True).without_cursor(), O);
    assert_eq!(TileStatus::marked_by(Players::Cross), X);
    assert_eq!(TileStatus::marked_by(Players::Nought), O);
    assert_eq!(Players::Cross.opponent(), Players::Nought);
    assert_eq!(Players::Nought.opponent(), Players::Cross);
}

#[test]
fn full_board_is_full() {
    assert!(is_board_full(board([X, O, X, X, O, O, O, X, X])));
}

#[test]
fn full_board_with_cursor_over_a_mark_is_full() {
    assert!(is_board_full(board([X, O, X, X, TileStatus::Nought(Cursor::True), O, O, X, X])));
}

#[test]
fn board_with_one_unmarked_cell_is_not_full() {
    for k in 0..9 {
        let full = board([X, O, X, X, O, O, O, X, X]);
        assert!(!is_board_full(full.with_tile(k, E)));
        assert!(!is_board_full(full.with_tile(k, C)));
    }
}

#[test]
fn starting_board_is_not_full() {
    assert!(!is_board_full(GameBoard::new()));
    assert!(!is_board_full(board([E; 9])));
}

#[test]
fn empty_cells_lists_unmarked_cells_in_row_major_order() {
    assert_eq!(empty_cells(&board([X, E, O, C, X, E, O, E, X])), vec![1, 3, 5, 7]);
    assert_eq!(empty_cells(&GameBoard::new()), vec![0, 1, 2, 3, 4, 5, 6, 7, 8]);
    assert_eq!(empty_cells(&board([X, O, X, X, O, O, O, X, X])), Vec::<usize>::new());
    assert_eq!(
        empty_cells(&board([X, O, X, X, TileStatus::Nought(Cursor::True), O, O, X, E])),
        vec![8]
    );
}
