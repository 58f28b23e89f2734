use noughts_and_crosses::won::{line_cells, owns_line};
use noughts_and_crosses::{has_someone_won, Cursor, GameBoard, Players, TileStatus, Winner};

const X: TileStatus = TileStatus::Cross(Cursor::False);
const O: TileStatus = TileStatus::Nought(Cursor::False);
const E: TileStatus = TileStatus::Empty;
const C: TileStatus = TileStatus::Cursor;

fn grid(cells: [TileStatus; 9]) -> GameBoard {
    GameBoard {
        row_one: [cells[0], cells[1], cells[2]],
        row_two: [cells[3], cells[4], cells[5]],
        row_three: [cells[6], cells[7], cells[8]],
    }
}

const LINES: [(usize, usize, usize); 8] = [
    (0, 1, 2),
    (3, 4, 5),
    (6, 7, 8),
    (0, 3, 6),
    (1, 4, 7),
    (2, 5, 8),
    (0, 4, 8),
    (2, 4, 6),
];

#[test]
fn the_eight_lines() {
    for (i, line) in LINES.iter().enumerate() {
        assert_eq!(line_cells(i), *line);
    }
}

#[test]
fn nobody_wins_on_an_empty_board() {
    assert_eq!(has_someone_won(grid([E; 9])), Winner::Nobody);
    assert_eq!(has_someone_won(GameBoard::new()), Winner::Nobody);
}

#[test]
fn each_line_wins_for_cross() {
    for (a, b, c) in LINES {
        let board = grid([E; 9]).with_tile(a, X).with_tile(b, X).with_tile(c, X);
        assert_eq!(has_someone_won(board), Winner::Cross);
    }
}

#[test]
fn each_line_wins_for_nought() {
    for (a, b, c) in LINES {
        let board = grid([E; 9]).with_tile(a, O).with_tile(b, O).with_tile(c, O);
        assert_eq!(has_someone_won(board), Winner::Nought);
    }
}

#[test]
fn two_in_a_line_do_not_win() {
    for (a, b, c) in LINES {
        let board = grid([E; 9]).with_tile(a, X).with_tile(b, X);
        assert_eq!(has_someone_won(board), Winner::Nobody);
        let mixed = board.with_tile(c, O);
        assert_eq!(has_someone_won(mixed), Winner::Nobody);
        let under_cursor = board.with_tile(c, C);
        assert_eq!(has_someone_won(under_cursor), Winner::Nobody);
    }
}

#[test]
fn a_mark_under_the_cursor_counts() {
    let board = grid([X, TileStatus::Cross(Cursor::True), X, O, O, E, E, E, E]);
    assert_eq!(has_someone_won(board), Winner::Cross);
    let board = grid([X, X, E, O, O, TileStatus::Nought(Cursor::True), E, E, E]);
    assert_eq!(has_someone_won(board), Winner::Nought);
}

#[test]
fn a_full_board_without_a_line_has_no_winner() {
    assert_eq!(has_someone_won(grid([X, O, X, X, O, O, O, X, X])), Winner::Nobody);
}

#[test]
fn cross_is_looked_for_before_nought_within_the_rows() {
    assert_eq!(has_someone_won(grid([O, O, O, X, X, X, E, E, E])), Winner::Cross);
    assert_eq!(has_someone_won(grid([X, X, X, O, O, O, E, E, E])), Winner::Cross);
}

#[test]
fn cross_is_looked_for_before_nought_within_the_columns() {
    assert_eq!(has_someone_won(grid([O, X, E, O, X, E, O, X, E])), Winner::Cross);
}

#[test]
fn owns_line_is_per_line_and_player() {
    let board = grid([X, X, X, O, O, E, E, E, E]);
    assert!(owns_line(&board, 0, Players::Cross));
    assert!(!owns_line(&board, 0, Players::Nought));
    for i in 1..8 {
        assert!(!owns_line(&board, i, Players::Cross));
        assert!(!owns_line(&board, i, Players::Nought));
    }
}
