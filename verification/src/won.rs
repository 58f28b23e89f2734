//! The win detector: which player, if any, owns a complete line.

use crate::board::{GameBoard, Players, TileStatus, Winner};
use vstd::prelude::*;

verus! {

/// The eight lines, each as its three cells in row-major numbering: the three
/// rows, then the three columns, then the two diagonals.
pub open spec fn lines() -> Seq<(int, int, int)> {
    seq![
        (0, 1, 2),
        (3, 4, 5),
        (6, 7, 8),
        (0, 3, 6),
        (1, 4, 7),
        (2, 5, 8),
        (0, 4, 8),
        (2, 4, 6),
    ]
}

/// Whether all three cells of `line` carry the mark of `player`. A cursor
/// lying over a mark changes nothing.
pub open spec fn line_owned(cells: Seq<TileStatus>, line: (int, int, int), player: Players) -> bool {
    &&& cells[line.0].owner() == Some(player)
    &&& cells[line.1].owner() == Some(player)
    &&& cells[line.2].owner() == Some(player)
}

/// Whether `player` owns one of the lines numbered from `from` up to, and not
/// including, `to`.
pub open spec fn owns_line_among(cells: Seq<TileStatus>, player: Players, from: int, to: int) -> bool {
    exists|i: int| from <= i < to && #[trigger] line_owned(cells, lines()[i], player)
}

/// Whether `player` owns any of the eight lines.
pub open spec fn owns_some_line(cells: Seq<TileStatus>, player: Players) -> bool {
    owns_line_among(cells, player, 0, 8)
}

/// The result of one scan, over the lines numbered from `from` up to `to`:
/// cross where cross owns one of them, else nought where nought owns one.
pub open spec fn scan_winner(cells: Seq<TileStatus>, from: int, to: int) -> Winner {
    if owns_line_among(cells, Players::Cross, from, to) {
        Winner::Cross
    } else if owns_line_among(cells, Players::Nought, from, to) {
        Winner::Nought
    } else {
        Winner::Nobody
    }
}

/// The winner on a board: the result of the first scan that finds a complete
/// line, of the scans over the rows, the columns and the diagonals in that
/// order.
pub open spec fn winner_of(cells: Seq<TileStatus>) -> Winner {
    if scan_winner(cells, 0, 3) != Winner::Nobody {
        scan_winner(cells, 0, 3)
    } else if scan_winner(cells, 3, 6) != Winner::Nobody {
        scan_winner(cells, 3, 6)
    } else {
        scan_winner(cells, 6, 8)
    }
}

/// The winner that stands for `player`.
pub open spec fn winner_for(player: Players) -> Winner {
    match player {
        Players::Nought => Winner::Nought,
        Players::Cross => Winner::Cross,
    }
}

/// The three cells of the line numbered `i`.
pub fn line_cells(i: usize) -> (line: (usize, usize, usize))
    requires
        i < 8,
    ensures
        (line.0 as int, line.1 as int, line.2 as int) == lines()[i as int],
        line.0 < 9,
        line.1 < 9,
        line.2 < 9,
{
    match i {
        0 => (0, 1, 2),
        1 => (3, 4, 5),
        2 => (6, 7, 8),
        3 => (0, 3, 6),
        4 => (1, 4, 7),
        5 => (2, 5, 8),
        6 => (0, 4, 8),
        _ => (2, 4, 6),
    }
}

/// Whether the tile carries the mark of `player`.
pub fn marked_for(tile: TileStatus, player: Players) -> (yes: bool)
    ensures
        yes == (tile.owner() == Some(player)),
{
    match (tile, player) {
        (TileStatus::Nought(_), Players::Nought) => true,
        (TileStatus::Cross(_), Players::Cross) => true,
        _ => false,
    }
}

/// Whether `player` owns the line numbered `i`.
pub fn owns_line(game_board: &GameBoard, i: usize, player: Players) -> (yes: bool)
    requires
        i < 8,
    ensures
        yes == line_owned(game_board@, lines()[i as int], player),
{
    let (a, b, c) = line_cells(i);
    marked_for(game_board.tile(a), player) && marked_for(game_board.tile(b), player) && marked_for(
        game_board.tile(c),
        player,
    )
}

/// Whether `player` owns one of the lines numbered from `from` up to `to`.
fn owns_among(game_board: &GameBoard, player: Players, from: usize, to: usize) -> (yes: bool)
    requires
        from <= to <= 8,
    ensures
        yes == owns_line_among(game_board@, player, from as int, to as int),
{
    let mut i: usize = from;
    while i < to
        invariant
            from <= i <= to <= 8,
            forall|j: int| from <= j < i ==> !#[trigger] line_owned(game_board@, lines()[j], player),
        decreases to - i,
    {
        if owns_line(game_board, i, player) {
            return true;
        }
        i += 1;
    }
    false
}

/// One scan over the lines numbered from `from` up to `to`.
fn scan(game_board: &GameBoard, from: usize, to: usize) -> (winner: Winner)
    requires
        from <= to <= 8,
    ensures
        winner == scan_winner(game_board@, from as int, to as int),
{
    if owns_among(game_board, Players::Cross, from, to) {
        Winner::Cross
    } else if owns_among(game_board, Players::Nought, from, to) {
        Winner::Nought
    } else {
        Winner::Nobody
    }
}

/// The winner on the board. The rows are scanned first, then the columns,
/// then the diagonals, and the first scan that finds a complete line decides;
/// within a scan cross is looked for before nought. So nobody has won exactly
/// when no player owns any line.
pub fn has_someone_won(game_board: GameBoard) -> (winner: Winner)
    ensures
        winner == winner_of(game_board@),
        winner == Winner::Nobody <==> !owns_some_line(game_board@, Players::Cross)
            && !owns_some_line(game_board@, Players::Nought),
{
    proof {
        lemma_nobody_iff_no_line(game_board@);
    }
    let rows = scan(&game_board, 0, 3);
    match rows {
        Winner::Nobody => {},
        _ => {
            return rows;
        },
    }
    let columns = scan(&game_board, 3, 6);
    match columns {
        Winner::Nobody => {},
        _ => {
            return columns;
        },
    }
    scan(&game_board, 6, 8)
}

/// A player owns some line exactly when the player owns a row, a column or a
/// diagonal.
pub proof fn lemma_owns_some_line_split(cells: Seq<TileStatus>, player: Players)
    ensures
        owns_some_line(cells, player) <==> owns_line_among(cells, player, 0, 3) || owns_line_among(
            cells,
            player,
            3,
            6,
        ) || owns_line_among(cells, player, 6, 8),
{
    if owns_some_line(cells, player) {
        let i = choose|i: int| 0 <= i < 8 && #[trigger] line_owned(cells, lines()[i], player);
        assert(line_owned(cells, lines()[i], player));
    }
    if owns_line_among(cells, player, 0, 3) {
        let i = choose|i: int| 0 <= i < 3 && #[trigger] line_owned(cells, lines()[i], player);
        assert(line_owned(cells, lines()[i], player));
    }
    if owns_line_among(cells, player, 3, 6) {
        let i = choose|i: int| 3 <= i < 6 && #[trigger] line_owned(cells, lines()[i], player);
        assert(line_owned(cells, lines()[i], player));
    }
    if owns_line_among(cells, player, 6, 8) {
        let i = choose|i: int| 6 <= i < 8 && #[trigger] line_owned(cells, lines()[i], player);
        assert(line_owned(cells, lines()[i], player));
    }
}

/// Nobody has won exactly when no row, column or diagonal is marked throughout
/// by one player.
pub proof fn lemma_nobody_iff_no_line(cells: Seq<TileStatus>)
    ensures
        winner_of(cells) == Winner::Nobody <==> !owns_some_line(cells, Players::Cross)
            && !owns_some_line(cells, Players::Nought),
        winner_of(cells) == Winner::Nobody <==> forall|i: int, player: Players|
            0 <= i < 8 ==> !#[trigger] line_owned(cells, lines()[i], player),
{
    lemma_owns_some_line_split(cells, Players::Cross);
    lemma_owns_some_line_split(cells, Players::Nought);
    if winner_of(cells) == Winner::Nobody {
        assert forall|i: int, player: Players| 0 <= i < 8 implies !#[trigger] line_owned(
            cells,
            lines()[i],
            player,
        ) by {
            match player {
                Players::Cross => {
                    assert(!owns_some_line(cells, Players::Cross));
                },
                Players::Nought => {
                    assert(!owns_some_line(cells, Players::Nought));
                },
            }
        }
    }
}

/// A declared winner owns a line.
pub proof fn lemma_winner_owns_line(cells: Seq<TileStatus>, player: Players)
    requires
        winner_of(cells) == winner_for(player),
    ensures
        owns_some_line(cells, player),
{
    lemma_owns_some_line_split(cells, player);
}

/// The only player who owns a line is the winner.
pub proof fn lemma_sole_owner_wins(cells: Seq<TileStatus>, player: Players)
    requires
        owns_some_line(cells, player),
        !owns_some_line(cells, player.opponent()),
    ensures
        winner_of(cells) == winner_for(player),
{
    lemma_owns_some_line_split(cells, player);
    lemma_owns_some_line_split(cells, player.opponent());
}

/// The cursor is nothing to the win detector: two boards whose cells have the
/// same owners have the same owners of lines and the same winner.
pub proof fn lemma_winner_ignores_cursor(a: Seq<TileStatus>, b: Seq<TileStatus>)
    requires
        a.len() == 9,
        b.len() == 9,
        forall|j: int| 0 <= j < 9 ==> (#[trigger] a[j]).owner() == b[j].owner(),
    ensures
        forall|player: Players, from: int, to: int|
            0 <= from <= to <= 8 ==> #[trigger] owns_line_among(a, player, from, to)
                == owns_line_among(b, player, from, to),
        winner_of(a) == winner_of(b),
{
    assert forall|i: int, player: Players| 0 <= i < 8 implies #[trigger] line_owned(
        a,
        lines()[i],
        player,
    ) == line_owned(b, lines()[i], player) by {
        let line = lines()[i];
        assert(a[line.0].owner() == b[line.0].owner());
        assert(a[line.1].owner() == b[line.1].owner());
        assert(a[line.2].owner() == b[line.2].owner());
    }
    assert forall|player: Players, from: int, to: int| 0 <= from <= to <= 8 implies #[trigger] owns_line_among(
        a,
        player,
        from,
        to,
    ) == owns_line_among(b, player, from, to) by {
        if owns_line_among(a, player, from, to) {
            let i = choose|i: int| from <= i < to && #[trigger] line_owned(a, lines()[i], player);
            assert(line_owned(b, lines()[i], player));
        }
        if owns_line_among(b, player, from, to) {
            let i = choose|i: int| from <= i < to && #[trigger] line_owned(b, lines()[i], player);
            assert(line_owned(a, lines()[i], player));
        }
    }
    assert(owns_line_among(a, Players::Cross, 0, 3) == owns_line_among(b, Players::Cross, 0, 3));
    assert(owns_line_among(a, Players::Nought, 0, 3) == owns_line_among(b, Players::Nought, 0, 3));
    assert(owns_line_among(a, Players::Cross, 3, 6) == owns_line_among(b, Players::Cross, 3, 6));
    assert(owns_line_among(a, Players::Nought, 3, 6) == owns_line_among(b, Players::Nought, 3, 6));
    assert(owns_line_among(a, Players::Cross, 6, 8) == owns_line_among(b, Players::Cross, 6, 8));
    assert(owns_line_among(a, Players::Nought, 6, 8) == owns_line_among(b, Players::Nought, 6, 8));
}

} // verus!
