//! The picture of a board, as text.

use crate::board::{Cursor, GameBoard, GameMode, TileStatus};
use vstd::prelude::*;
use vstd::string::*;

verus! {

/// The three characters that stand for a tile. The mark is in the middle; a
/// cursor on an unmarked tile is a star, a cursor over a mark is a star on
/// either side of it. Where `show_cursor` is false the cursor is left out.
pub open spec fn tile_text(tile: TileStatus, show_cursor: bool) -> Seq<char> {
    match tile {
        TileStatus::Nought(flag) => if show_cursor && flag == Cursor::True {
            "*O*"@
        } else {
            " O "@
        },
        TileStatus::Cross(flag) => if show_cursor && flag == Cursor::True {
            "*X*"@
        } else {
            " X "@
        },
        TileStatus::Cursor => if show_cursor {
            " * "@
        } else {
            "   "@
        },
        TileStatus::Empty => "   "@,
    }
}

/// The line of text for row `row`: its three tiles with a bar between them.
pub open spec fn row_text(cells: Seq<TileStatus>, row: int, show_cursor: bool) -> Seq<char> {
    tile_text(cells[3 * row], show_cursor) + "|"@ + tile_text(cells[3 * row + 1], show_cursor)
        + "|"@ + tile_text(cells[3 * row + 2], show_cursor) + "\n"@
}

/// The picture of a board: its three rows from the top, with a rule between
/// them.
pub open spec fn board_text(cells: Seq<TileStatus>, show_cursor: bool) -> Seq<char> {
    row_text(cells, 0, show_cursor) + "---+---+---\n"@ + row_text(cells, 1, show_cursor)
        + "---+---+---\n"@ + row_text(cells, 2, show_cursor)
}

/// The three characters that stand for a tile.
fn tile_str(tile: TileStatus, show_cursor: bool) -> (text: &'static str)
    ensures
        text@ == tile_text(tile, show_cursor),
{
    match tile {
        TileStatus::Nought(Cursor::True) => if show_cursor {
            "*O*"
        } else {
            " O "
        },
        TileStatus::Nought(Cursor::False) => " O ",
        TileStatus::Cross(Cursor::True) => if show_cursor {
            "*X*"
        } else {
            " X "
        },
        TileStatus::Cross(Cursor::False) => " X ",
        TileStatus::Cursor => if show_cursor {
            " * "
        } else {
            "   "
        },
        TileStatus::Empty => "   ",
    }
}

/// Appends the line of text for row `row` to `picture`.
fn draw_row(picture: &mut String, game_board: &GameBoard, row: usize, show_cursor: bool)
    requires
        row < 3,
    ensures
        final(picture)@ == old(picture)@ + row_text(game_board@, row as int, show_cursor),
{
    picture.append(tile_str(game_board.tile(3 * row), show_cursor));
    picture.append("|");
    picture.append(tile_str(game_board.tile(3 * row + 1), show_cursor));
    picture.append("|");
    picture.append(tile_str(game_board.tile(3 * row + 2), show_cursor));
    picture.append("\n");
    assert(picture@ =~= old(picture)@ + row_text(game_board@, row as int, show_cursor));
}

/// The picture of the board, ready to be printed. In spectate mode, where
/// nobody steers it, the cursor is not drawn.
pub fn draw_game_board(game_board: GameBoard, game_mode: &GameMode) -> (picture: String)
    ensures
        picture@ == board_text(game_board@, *game_mode != GameMode::Spectate),
{
    let show_cursor = match game_mode {
        GameMode::Spectate => false,
        _ => true,
    };
    let mut picture = String::new();
    draw_row(&mut picture, &game_board, 0, show_cursor);
    picture.append("---+---+---\n");
    draw_row(&mut picture, &game_board, 1, show_cursor);
    picture.append("---+---+---\n");
    draw_row(&mut picture, &game_board, 2, show_cursor);
    assert(picture@ =~= board_text(game_board@, show_cursor));
    picture
}

/// Every picture has five lines of twelve characters, the line ends counted.
pub proof fn lemma_board_text_len(cells: Seq<TileStatus>, show_cursor: bool)
    ensures
        board_text(cells, show_cursor).len() == 60,
{
    reveal_strlit("*O*");
    reveal_strlit(" O ");
    reveal_strlit("*X*");
    reveal_strlit(" X ");
    reveal_strlit(" * ");
    reveal_strlit("   ");
    reveal_strlit("|");
    reveal_strlit("\n");
    reveal_strlit("---+---+---\n");
    assert(row_text(cells, 0, show_cursor).len() == 12);
    assert(row_text(cells, 1, show_cursor).len() == 12);
    assert(row_text(cells, 2, show_cursor).len() == 12);
}

} // verus!
