//! Noughts and crosses on a three-by-three board: the board model, the win
//! detector, the cursor-driven movement engine, the two computer players, the
//! rules of a session, the picture of a board and the reading of a number
//! from a line of input.

pub mod ai;
pub mod board;
pub mod draw;
pub mod game;
pub mod input;
pub mod movement;
pub mod won;

pub use ai::{process_ai, process_ai_with};
pub use board::{
    is_board_full, no_player, switch_player, AiMode, Cursor, GameBoard, GameMode, NoCursorFound,
    Players, TileStatus, Winner,
};
pub use draw::draw_game_board;
pub use game::{ai_mode_choice, game_mode_choice, Game, Progress, Standing};
pub use movement::{process_movement, MovementReturn};
pub use won::has_someone_won;
