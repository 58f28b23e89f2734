//! The movement engine: what one input does to the board, given where the
//! cursor is and whose turn it is.

use crate::board::{
    all_marked, as_ints, cell_index, cursor_cell, empty_cells, is_first_cursor, lemma_cursor_cell,
    lemma_vacant_cells, placed_at, sole_cursor, some_cursor, vacant_cells, GameBoard, Players,
    TileStatus,
};
use vstd::prelude::*;

verus! {

/// The input that moves the cursor one row up.
pub const MOVE_UP: u32 = 8;

/// The input that moves the cursor one row down.
pub const MOVE_DOWN: u32 = 2;

/// The input that moves the cursor one column to the left.
pub const MOVE_LEFT: u32 = 4;

/// The input that moves the cursor one column to the right.
pub const MOVE_RIGHT: u32 = 6;

/// The input that places the acting player's mark under the cursor.
pub const PLACE: u32 = 5;

/// What the movement engine answers to one input.
#[derive(Copy, Clone, Debug, PartialEq, Eq)]
pub struct MovementReturn {
    /// The new board, or `None` when the input was rejected.
    pub game_board: Option<GameBoard>,
    /// Whether a mark was placed.
    pub placed: bool,
}

impl View for MovementReturn {
    type V = (Option<Seq<TileStatus>>, bool);

    /// The cells of the new board, if there is one, and whether a mark was placed.
    open spec fn view(&self) -> (Option<Seq<TileStatus>>, bool) {
        (
            match self.game_board {
                Some(board) => Some(board@),
                None => None,
            },
            self.placed,
        )
    }
}

/// The row and column one step from `row` and `col` in the direction that
/// `input` names; `None` where `input` names no direction or the step would
/// leave the grid. Nothing wraps round.
pub open spec fn step_from(row: int, col: int, input: u32) -> Option<(int, int)> {
    if input == MOVE_UP && row > 0 {
        Some((row - 1, col))
    } else if input == MOVE_DOWN && row < 2 {
        Some((row + 1, col))
    } else if input == MOVE_LEFT && col > 0 {
        Some((row, col - 1))
    } else if input == MOVE_RIGHT && col < 2 {
        Some((row, col + 1))
    } else {
        None
    }
}

/// The cells after the cursor went from cell `from` to cell `to`: the marks
/// stay, the cursor lies over whatever `to` holds.
pub open spec fn cursor_moved(cells: Seq<TileStatus>, from: int, to: int) -> Seq<TileStatus> {
    cells.update(from, cells[from].without_cursor()).update(to, cells[to].with_cursor())
}

/// What the engine answers to `input` on a board that carries the cursor,
/// when it is the turn of `player`: the new cells, or `None` for a rejection,
/// and whether a mark was placed.
///
/// `PLACE` on an unmarked cursor cell turns that cell into the player's mark
/// and uses the cursor up; on a marked cell it is rejected. A direction moves
/// the cursor one step, onto a marked cell too, and is rejected at the edge.
/// Every other input is rejected.
pub open spec fn movement_of(cells: Seq<TileStatus>, player: Players, input: u32) -> (
    Option<Seq<TileStatus>>,
    bool,
) {
    let k = cursor_cell(cells);
    if input == PLACE {
        if cells[k].is_vacant() {
            (Some(placed_at(cells, k, player)), true)
        } else {
            (None, false)
        }
    } else {
        match step_from(k / 3, k % 3, input) {
            Some((row, col)) => (Some(cursor_moved(cells, k, cell_index(row, col))), false),
            None => (None, false),
        }
    }
}

/// The answer that rejects an input.
fn rejected() -> (outcome: MovementReturn)
    ensures
        outcome@ == (None::<Seq<TileStatus>>, false),
{
    MovementReturn { game_board: None, placed: false }
}

/// One step on the grid, or `None` where there is none to take.
fn step(row: usize, col: usize, input: u32) -> (target: Option<(usize, usize)>)
    requires
        row < 3,
        col < 3,
    ensures
        match target {
            Some((r, c)) => r < 3 && c < 3 && step_from(row as int, col as int, input) == Some(
                (r as int, c as int),
            ),
            None => step_from(row as int, col as int, input) is None,
        },
{
    if input == MOVE_UP && row > 0 {
        Some((row - 1, col))
    } else if input == MOVE_DOWN && row < 2 {
        Some((row + 1, col))
    } else if input == MOVE_LEFT && col > 0 {
        Some((row, col - 1))
    } else if input == MOVE_RIGHT && col < 2 {
        Some((row, col + 1))
    } else {
        None
    }
}

/// Answers one input of `current_player` on a board that carries the cursor.
///
/// The board in the answer is `None` when the input is rejected: a step off
/// the grid, a placement on a marked cell, an input that is neither. It is
/// the board with the cursor moved, and `placed` is false, after a step; it
/// is the board with the player's mark where the cursor was, and `placed` is
/// true, after a placement.
pub fn process_movement(game_board: GameBoard, current_player: Players, input: u32) -> (outcome:
    MovementReturn)
    requires
        some_cursor(game_board@),
    ensures
        outcome@ == movement_of(game_board@, current_player, input),
{
    match game_board.cursor_position() {
        Ok((row, col)) => {
            let k = 3 * row + col;
            proof {
                lemma_cursor_cell(game_board@, k as int);
            }
            if input == PLACE {
                if game_board.tile(k).owner().is_none() {
                    let board = game_board.with_tile(k, TileStatus::marked_by(current_player));
                    MovementReturn { game_board: Some(board), placed: true }
                } else {
                    rejected()
                }
            } else {
                match step(row, col, input) {
                    Some((r, c)) => {
                        let target = 3 * r + c;
                        let lifted = game_board.with_tile(k, game_board.tile(k).without_cursor());
                        let board = lifted.with_tile(target, game_board.tile(target).with_cursor());
                        MovementReturn { game_board: Some(board), placed: false }
                    },
                    None => rejected(),
                }
            }
        },
        Err(_) => rejected(),
    }
}

/// A step off the grid is rejected: up from the top row, down from the bottom
/// row, left from the first column, right from the last.
pub proof fn lemma_step_off_grid_rejected(cells: Seq<TileStatus>, player: Players)
    requires
        cells.len() == 9,
        some_cursor(cells),
    ensures
        cursor_cell(cells) / 3 == 0 ==> movement_of(cells, player, MOVE_UP).0 is None,
        cursor_cell(cells) / 3 == 2 ==> movement_of(cells, player, MOVE_DOWN).0 is None,
        cursor_cell(cells) % 3 == 0 ==> movement_of(cells, player, MOVE_LEFT).0 is None,
        cursor_cell(cells) % 3 == 2 ==> movement_of(cells, player, MOVE_RIGHT).0 is None,
{
}

/// An input that is neither a direction nor `PLACE` is rejected.
pub proof fn lemma_unknown_input_rejected(cells: Seq<TileStatus>, player: Players, input: u32)
    requires
        input != MOVE_UP,
        input != MOVE_DOWN,
        input != MOVE_LEFT,
        input != MOVE_RIGHT,
        input != PLACE,
    ensures
        movement_of(cells, player, input) == (None::<Seq<TileStatus>>, false),
{
}

/// The cursor's cell exists and carries the cursor on a board that has one.
pub proof fn lemma_cursor_cell_carries_cursor(cells: Seq<TileStatus>)
    requires
        some_cursor(cells),
    ensures
        is_first_cursor(cells, cursor_cell(cells)),
{
    lemma_first_cursor_exists(cells, cells.len() as int);
}

/// Among the first `n` cells, either none carries the cursor or one is the
/// first to carry it.
proof fn lemma_first_cursor_exists(cells: Seq<TileStatus>, n: int)
    requires
        0 <= n <= cells.len(),
    ensures
        (exists|k: int| k < n && is_first_cursor(cells, k)) || (forall|j: int|
            0 <= j < n ==> !(#[trigger] cells[j]).has_cursor()),
    decreases n,
{
    if n > 0 {
        lemma_first_cursor_exists(cells, n - 1);
        if forall|j: int| 0 <= j < n - 1 ==> !(#[trigger] cells[j]).has_cursor() {
            if cells[n - 1].has_cursor() {
                assert(is_first_cursor(cells, n - 1));
            }
        } else {
            let k = choose|k: int| k < n - 1 && is_first_cursor(cells, k);
            assert(k < n && is_first_cursor(cells, k));
        }
    }
}

/// `PLACE` on an unmarked cursor cell puts the acting player's mark there,
/// leaves every other cell as it was and reports a placement; on a marked
/// cursor cell it is rejected.
pub proof fn lemma_placement(cells: Seq<TileStatus>, player: Players)
    requires
        cells.len() == 9,
        some_cursor(cells),
    ensures
        ({
            let k = cursor_cell(cells);
            let outcome = movement_of(cells, player, PLACE);
            &&& 0 <= k < 9
            &&& cells[k].is_vacant() ==> outcome.1 && outcome.0 is Some && outcome.0->0.len() == 9
                && outcome.0->0[k] == TileStatus::marked_by(player) && outcome.0->0[k].owner()
                == Some(player) && forall|j: int|
                0 <= j < 9 && j != k ==> outcome.0->0[j] == cells[j]
            &&& !cells[k].is_vacant() ==> outcome == (None::<Seq<TileStatus>>, false)
        }),
{
    lemma_cursor_cell_carries_cursor(cells);
}

/// On a board with exactly one cursor, an accepted step leaves exactly one
/// cursor, one step away in the direction asked for, and changes no mark.
pub proof fn lemma_step_keeps_one_cursor(cells: Seq<TileStatus>, player: Players, input: u32)
    requires
        cells.len() == 9,
        sole_cursor(cells, cursor_cell(cells)),
        input != PLACE,
        movement_of(cells, player, input).0 is Some,
    ensures
        ({
            let k = cursor_cell(cells);
            let after = movement_of(cells, player, input).0->0;
            let to = cursor_cell(after);
            &&& after.len() == 9
            &&& !movement_of(cells, player, input).1
            &&& sole_cursor(after, to)
            &&& step_from(k / 3, k % 3, input) == Some((to / 3, to % 3))
            &&& forall|j: int| 0 <= j < 9 ==> (#[trigger] after[j]).owner() == cells[j].owner()
        }),
{
    let k = cursor_cell(cells);
    let target = step_from(k / 3, k % 3, input)->0;
    let t = cell_index(target.0, target.1);
    let after = movement_of(cells, player, input).0->0;
    assert(after == cursor_moved(cells, k, t));
    assert(after[t].has_cursor());
    assert forall|j: int| 0 <= j < 9 implies ((#[trigger] after[j]).has_cursor() <==> j == t) by {
        if j != t && j != k {
            assert(after[j] == cells[j]);
        }
    }
    assert(is_first_cursor(after, t));
    lemma_cursor_cell(after, t);
}

/// On a board with exactly one cursor, a placement leaves no cursor at all.
pub proof fn lemma_placement_uses_cursor_up(cells: Seq<TileStatus>, player: Players)
    requires
        cells.len() == 9,
        sole_cursor(cells, cursor_cell(cells)),
        movement_of(cells, player, PLACE).0 is Some,
    ensures
        !some_cursor(movement_of(cells, player, PLACE).0->0),
{
    let k = cursor_cell(cells);
    let after = movement_of(cells, player, PLACE).0->0;
    assert forall|j: int| 0 <= j < after.len() implies !(#[trigger] after[j]).has_cursor() by {
        if j != k {
            assert(after[j] == cells[j]);
        }
    }
}

/// The cells with the cursor put back after a placement used it up: the
/// first unmarked cell in row-major order takes the cursor. Where some cell
/// carries the cursor already, or every cell is marked, nothing changes.
pub open spec fn cursor_restored(cells: Seq<TileStatus>) -> Seq<TileStatus> {
    if some_cursor(cells) || all_marked(cells) {
        cells
    } else {
        cells.update(vacant_cells(cells)[0], TileStatus::Cursor)
    }
}

/// Puts the cursor back on a board whose cursor a placement used up, so that
/// the next player has one to steer: it goes to the first unmarked cell in
/// row-major order. A board that carries the cursor, or that is full, comes
/// back unchanged.
pub fn restore_cursor(game_board: GameBoard) -> (board: GameBoard)
    ensures
        board@ == cursor_restored(game_board@),
{
    match game_board.cursor_position() {
        Ok((row, col)) => {
            assert(game_board@[cell_index(row as int, col as int)].has_cursor());
            game_board
        },
        Err(_) => {
            let vacant = empty_cells(&game_board);
            proof {
                lemma_vacant_cells(game_board@);
            }
            if vacant.len() == 0 {
                game_board
            } else {
                let k = vacant[0];
                assert(as_ints(vacant@)[0] == k as int);
                game_board.with_tile(k, TileStatus::Cursor)
            }
        },
    }
}

/// After the cursor was put back on a board without one that is not full,
/// exactly one cell carries it, that cell is unmarked, and no mark changed.
pub proof fn lemma_cursor_restored(cells: Seq<TileStatus>)
    requires
        cells.len() == 9,
        !some_cursor(cells),
        !all_marked(cells),
    ensures
        ({
            let after = cursor_restored(cells);
            let k = cursor_cell(after);
            &&& after.len() == 9
            &&& sole_cursor(after, k)
            &&& after[k] == TileStatus::Cursor
            &&& forall|j: int| 0 <= j < k ==> !(#[trigger] cells[j]).is_vacant()
            &&& forall|j: int| 0 <= j < 9 ==> (#[trigger] after[j]).owner() == cells[j].owner()
        }),
{
    lemma_vacant_cells(cells);
    let vacant = vacant_cells(cells);
    let k = vacant[0];
    let after = cursor_restored(cells);
    assert(cells[k].is_vacant());
    assert forall|j: int| 0 <= j < 9 implies ((#[trigger] after[j]).has_cursor() <==> j == k) by {
        if j != k {
            assert(after[j] == cells[j]);
            assert(!cells[j].has_cursor());
        }
    }
    assert(is_first_cursor(after, k));
    lemma_cursor_cell(after, k);
    assert forall|j: int| 0 <= j < k implies !(#[trigger] cells[j]).is_vacant() by {
        if cells[j].is_vacant() {
            assert(vacant.contains(j));
            let i = choose|i: int| 0 <= i < vacant.len() && vacant[i] == j;
            if i > 0 {
                assert(vacant[0] < vacant[i]);
            }
        }
    }
}

} // verus!
