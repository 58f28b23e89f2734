use noughts_and_crosses::{draw_game_board, Cursor, GameBoard, GameMode, TileStatus};

const X: TileStatus = TileStatus::Cross(Cursor::False);
const O: TileStatus = TileStatus::Nought(Cursor::False);
const E: TileStatus = TileStatus::Empty;
const C: TileStatus = TileStatus::Cursor;

fn picture_of(cells: [TileStatus; 9]) -> GameBoard {
    GameBoard {
        row_one: [cells[0], cells[1], cells[2]],
        row_two: [cells[3], cells[4], cells[5]],
        row_three: [cells[6], cells[7], cells[8]],
    }
}

#[test]
fn the_starting_board_drawn() {
    let expected = " * |   |   \n---+---+---\n   |   |   \n---+---+---\n   |   |   \n";
    assert_eq!(draw_game_board(GameBoard::new(), &GameMode::TwoPlayer), expected);
    assert_eq!(draw_game_board(GameBoard::new(), &GameMode::SinglePlayer), expected);
}

#[test]
fn marks_and_cursor_drawn() {
    let board = picture_of([X, O, E, E, TileStatus::Cross(Cursor::True), E, TileStatus::Nought(Cursor::True), C, O]);
    let expected = " X | O |   \n---+---+---\n   |*X*|   \n---+---+---\n*O*| * | O \n";
    assert_eq!(draw_game_board(board, &GameMode::TwoPlayer), expected);
}

#[test]
fn spectate_mode_draws_no_cursor() {
    let board = picture_of([X, O, E, E, TileStatus::Cross(Cursor::True), E, TileStatus::Nought(Cursor::True), C, O]);
    let expected = " X | O |   \n---+---+---\n   | X |   \n---+---+---\n O |   | O \n";
    assert_eq!(draw_game_board(board, &GameMode::Spectate), expected);
    let blank = "   |   |   \n---+---+---\n   |   |   \n---+---+---\n   |   |   \n";
    assert_eq!(draw_game_board(GameBoard::new(), &GameMode::Spectate), blank);
}

#[test]
fn every_picture_has_sixty_characters() {
    for tile in [X, O, E, C, TileStatus::Cross(Cursor::True), TileStatus::Nought(Cursor::True)] {
        for mode in [GameMode::TwoPlayer, GameMode::SinglePlayer, GameMode::Spectate] {
            let text = draw_game_board(picture_of([tile; 9]), &mode);
            assert_eq!(text.chars().count(), 60);
            assert_eq!(text.lines().count(), 5);
        }
    }
}
