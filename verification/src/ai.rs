//! The computer players: a move drawn at random among the unmarked cells, and
//! one that wins or blocks where it can and draws at random otherwise.

use crate::board::{
    all_marked, as_ints, empty_cells, lemma_vacant_cells, no_player, placed_at, vacant_cells,
    AiMode, GameBoard, Players, TileStatus,
};
use crate::won::{
    lemma_sole_owner_wins, line_cells, line_owned, lines, owns_line, owns_some_line, winner_for,
    winner_of,
};
use std::collections::hash_map::RandomState;
use vstd::prelude::*;

verus! {

/// The cell that the random policy marks when the number drawn is `pick`: of
/// the unmarked cells in row-major order, the one at place `pick` modulo their
/// number.
pub open spec fn random_choice(cells: Seq<TileStatus>, pick: u64) -> int {
    vacant_cells(cells)[pick as int % vacant_cells(cells).len() as int]
}

/// Whether line `line` passes through cell `k`.
pub open spec fn line_through(line: (int, int, int), k: int) -> bool {
    line.0 == k || line.1 == k || line.2 == k
}

/// Whether cell `k` is unmarked and a mark of `player` there would give the
/// player all three cells of a line through it.
pub open spec fn completes_line(cells: Seq<TileStatus>, k: int, player: Players) -> bool {
    &&& 0 <= k < cells.len()
    &&& cells[k].is_vacant()
    &&& exists|i: int|
        0 <= i < 8 && line_through(lines()[i], k) && #[trigger] line_owned(
            placed_at(cells, k, player),
            lines()[i],
            player,
        )
}

/// Whether some cell would complete a line for `player`.
pub open spec fn can_complete(cells: Seq<TileStatus>, player: Players) -> bool {
    exists|k: int| #[trigger] completes_line(cells, k, player)
}

/// Whether `k` is the first cell in row-major order that would complete a
/// line for `player`.
pub open spec fn is_first_completing(cells: Seq<TileStatus>, k: int, player: Players) -> bool {
    &&& completes_line(cells, k, player)
    &&& forall|j: int| 0 <= j < k ==> !#[trigger] completes_line(cells, j, player)
}

/// The first cell in row-major order that would complete a line for `player`.
/// It is meaningful where `can_complete` holds.
pub open spec fn first_completing(cells: Seq<TileStatus>, player: Players) -> int {
    choose|k: int| is_first_completing(cells, k, player)
}

/// The cell that the smart policy marks for `player`: the first cell that wins
/// the game at once; failing that, the first cell with which the opponent
/// would win; failing that, the cell of the random policy.
pub open spec fn smart_choice(cells: Seq<TileStatus>, player: Players, pick: u64) -> int {
    if can_complete(cells, player) {
        first_completing(cells, player)
    } else if can_complete(cells, player.opponent()) {
        first_completing(cells, player.opponent())
    } else {
        random_choice(cells, pick)
    }
}

/// The cell that the computer marks for `player` under policy `ai_mode` when
/// the number drawn is `pick`.
pub open spec fn ai_choice(cells: Seq<TileStatus>, ai_mode: AiMode, player: Players, pick: u64) -> int {
    if ai_mode == AiMode::SmartRandom {
        smart_choice(cells, player, pick)
    } else {
        random_choice(cells, pick)
    }
}

/// The cells after the computer moved for `player`.
pub open spec fn ai_move(cells: Seq<TileStatus>, ai_mode: AiMode, player: Players, pick: u64) -> Seq<
    TileStatus,
> {
    placed_at(cells, ai_choice(cells, ai_mode, player, pick), player)
}

/// The board after the random policy moved for `current_player`, with `pick`
/// as the number drawn: the player's mark is on the unmarked cell at place
/// `pick` modulo their number, counted in row-major order.
pub fn random_move(game_board: GameBoard, current_player: Players, pick: u64) -> (board: GameBoard)
    requires
        !all_marked(game_board@),
    ensures
        board@ == placed_at(game_board@, random_choice(game_board@, pick), current_player),
{
    let vacant = empty_cells(&game_board);
    proof {
        lemma_vacant_cells(game_board@);
    }
    let count = vacant.len();
    let at = (pick % (count as u64)) as usize;
    let k = vacant[at];
    assert(as_ints(vacant@)[at as int] == k as int);
    game_board.with_tile(k, TileStatus::marked_by(current_player))
}

/// Whether the unmarked cell `k`, once marked by `player`, gives the player a
/// line.
fn completes(game_board: &GameBoard, k: usize, player: Players) -> (yes: bool)
    requires
        k < 9,
    ensures
        yes == completes_line(game_board@, k as int, player),
{
    if !no_player(game_board.tile(k)) {
        return false;
    }
    let trial = game_board.with_tile(k, TileStatus::marked_by(player));
    let mut i: usize = 0;
    while i < 8
        invariant
            i <= 8,
            k < 9,
            game_board@.len() == 9,
            game_board@[k as int].is_vacant(),
            trial@ == placed_at(game_board@, k as int, player),
            forall|j: int|
                0 <= j < i ==> !(line_through(lines()[j], k as int) && #[trigger] line_owned(
                    trial@,
                    lines()[j],
                    player,
                )),
        decreases 8 - i,
    {
        let (a, b, c) = line_cells(i);
        if (a == k || b == k || c == k) && owns_line(&trial, i, player) {
            return true;
        }
        i += 1;
    }
    false
}

/// The first cell in row-major order that would complete a line for `player`,
/// if there is one.
pub fn completing_cell(game_board: &GameBoard, player: Players) -> (found: Option<usize>)
    ensures
        match found {
            Some(k) => k < 9 && is_first_completing(game_board@, k as int, player),
            None => !can_complete(game_board@, player),
        },
{
    let mut k: usize = 0;
    while k < 9
        invariant
            k <= 9,
            game_board@.len() == 9,
            forall|j: int| 0 <= j < k ==> !#[trigger] completes_line(game_board@, j, player),
        decreases 9 - k,
    {
        if completes(game_board, k, player) {
            return Some(k);
        }
        k += 1;
    }
    None
}

/// A cell that would complete a line, with none before it that would, is the
/// first completing cell.
pub proof fn lemma_first_completing(cells: Seq<TileStatus>, k: int, player: Players)
    requires
        is_first_completing(cells, k, player),
    ensures
        can_complete(cells, player),
        first_completing(cells, player) == k,
{
    let c = first_completing(cells, player);
    assert(is_first_completing(cells, c, player));
    if c < k {
        assert(!completes_line(cells, c, player));
    } else if k < c {
        assert(!completes_line(cells, k, player));
    }
}

/// The board after the smart policy moved for `current_player`, with `pick`
/// as the number drawn. The player's mark is on the first cell, in row-major
/// order, that completes a line for the player; if there is none, on the
/// first cell that would complete a line for the opponent; if there is none
/// either, on the cell of the random policy.
pub fn smart_random_move(game_board: GameBoard, current_player: Players, pick: u64) -> (board:
    GameBoard)
    requires
        !all_marked(game_board@),
    ensures
        board@ == placed_at(game_board@, smart_choice(game_board@, current_player, pick), current_player),
{
    let mark = TileStatus::marked_by(current_player);
    match completing_cell(&game_board, current_player) {
        Some(k) => {
            proof {
                lemma_first_completing(game_board@, k as int, current_player);
            }
            game_board.with_tile(k, mark)
        },
        None => match completing_cell(&game_board, current_player.opponent()) {
            Some(k) => {
                proof {
                    lemma_first_completing(game_board@, k as int, current_player.opponent());
                }
                game_board.with_tile(k, mark)
            },
            None => random_move(game_board, current_player, pick),
        },
    }
}

/// The board after the computer moved for `current_player` under the policy
/// `ai_mode`, with `pick` as the number drawn.
pub fn process_ai_with(game_board: GameBoard, ai_mode: AiMode, current_player: Players, pick: u64) -> (board:
    GameBoard)
    requires
        ai_mode != AiMode::Off,
        !all_marked(game_board@),
    ensures
        board@ == ai_move(game_board@, ai_mode, current_player, pick),
{
    match ai_mode {
        AiMode::SmartRandom => smart_random_move(game_board, current_player, pick),
        _ => random_move(game_board, current_player, pick),
    }
}

/// `std::collections::hash_map::RandomState::new`: a hashing state whose keys
/// the process draws at random. Nothing is claimed of it.
#[verifier::external_body]
fn fresh_state() -> (state: RandomState) {
    RandomState::new()
}

/// `std::hash::BuildHasher::hash_one` on a `RandomState`: the digest of
/// `value` under the keys of `state`. Nothing is claimed of the digest.
#[verifier::external_body]
fn digest_of(state: &RandomState, value: u64) -> (digest: u64) {
    std::hash::BuildHasher::hash_one(state, value)
}

/// A number from the process's source of randomness.
pub(crate) fn draw_number() -> (pick: u64) {
    let state = fresh_state();
    digest_of(&state, 0)
}

/// The board after the computer moved for `current_player` under the policy
/// `ai_mode`. The number that the random policy needs is drawn from the
/// process's source of randomness, so the board is the one that
/// `process_ai_with` gives for some number.
pub fn process_ai(game_board: GameBoard, ai_mode: AiMode, current_player: Players) -> (board:
    GameBoard)
    requires
        ai_mode != AiMode::Off,
        !all_marked(game_board@),
    ensures
        exists|pick: u64| board@ == #[trigger] ai_move(game_board@, ai_mode, current_player, pick),
{
    let pick = draw_number();
    process_ai_with(game_board, ai_mode, current_player, pick)
}

/// The random policy marks an unmarked cell of the board.
pub proof fn lemma_random_choice(cells: Seq<TileStatus>, pick: u64)
    requires
        !all_marked(cells),
    ensures
        0 <= random_choice(cells, pick) < cells.len(),
        cells[random_choice(cells, pick)].is_vacant(),
{
    lemma_vacant_cells(cells);
}

/// Every unmarked cell is the random policy's choice for some number drawn:
/// the numbers below the count of unmarked cells give each of them once.
pub proof fn lemma_every_vacant_cell_is_drawn(cells: Seq<TileStatus>, k: int)
    requires
        cells.len() == 9,
        0 <= k < 9,
        cells[k].is_vacant(),
    ensures
        exists|pick: u64| pick < vacant_cells(cells).len() && #[trigger] random_choice(cells, pick) == k,
{
    lemma_vacant_cells(cells);
    let vacant = vacant_cells(cells);
    assert(vacant.contains(k));
    let i = choose|i: int| 0 <= i < vacant.len() && vacant[i] == k;
    let pick = i as u64;
    vstd::arithmetic::div_mod::lemma_small_mod(i as nat, vacant.len());
    assert(random_choice(cells, pick) == k);
}

/// Where some cell would complete a line for `player`, one of them is the
/// first.
pub proof fn lemma_first_completing_exists(cells: Seq<TileStatus>, player: Players)
    requires
        can_complete(cells, player),
    ensures
        is_first_completing(cells, first_completing(cells, player), player),
{
    let k = choose|k: int| #[trigger] completes_line(cells, k, player);
    lemma_first_completing_below(cells, player, k + 1);
    let first = choose|f: int| f < k + 1 && is_first_completing(cells, f, player);
    assert(is_first_completing(cells, first, player));
}

/// Below `n`, either no cell would complete a line for `player` or one is the
/// first that would.
proof fn lemma_first_completing_below(cells: Seq<TileStatus>, player: Players, n: int)
    requires
        0 <= n,
    ensures
        (exists|k: int| k < n && is_first_completing(cells, k, player)) || (forall|j: int|
            0 <= j < n ==> !#[trigger] completes_line(cells, j, player)),
    decreases n,
{
    if n > 0 {
        lemma_first_completing_below(cells, player, n - 1);
        if forall|j: int| 0 <= j < n - 1 ==> !#[trigger] completes_line(cells, j, player) {
            if completes_line(cells, n - 1, player) {
                assert(is_first_completing(cells, n - 1, player));
            }
        } else {
            let k = choose|k: int| k < n - 1 && is_first_completing(cells, k, player);
            assert(k < n && is_first_completing(cells, k, player));
        }
    }
}

/// A mark on a cell that completes a line for `player` gives the player a
/// line, and gives the opponent none that the opponent did not own before.
pub proof fn lemma_completing_mark_wins(cells: Seq<TileStatus>, k: int, player: Players)
    requires
        cells.len() == 9,
        completes_line(cells, k, player),
    ensures
        owns_some_line(placed_at(cells, k, player), player),
        !owns_some_line(cells, player.opponent()) ==> winner_of(placed_at(cells, k, player))
            == winner_for(player),
{
    let after = placed_at(cells, k, player);
    let i = choose|i: int|
        0 <= i < 8 && line_through(lines()[i], k) && #[trigger] line_owned(after, lines()[i], player);
    assert(line_owned(after, lines()[i], player));
    if !owns_some_line(cells, player.opponent()) {
        lemma_mark_gives_opponent_no_line(cells, k, player);
        lemma_sole_owner_wins(after, player);
    }
}

/// A mark of `player` completes no line for the opponent.
pub proof fn lemma_mark_gives_opponent_no_line(cells: Seq<TileStatus>, k: int, player: Players)
    requires
        cells.len() == 9,
        0 <= k < 9,
        !owns_some_line(cells, player.opponent()),
    ensures
        !owns_some_line(placed_at(cells, k, player), player.opponent()),
{
    let after = placed_at(cells, k, player);
    let other = player.opponent();
    assert forall|i: int| 0 <= i < 8 implies !#[trigger] line_owned(after, lines()[i], other) by {
        if line_owned(after, lines()[i], other) {
            assert(after[k].owner() == Some(player));
            assert(!line_through(lines()[i], k));
            assert(line_owned(cells, lines()[i], other));
        }
    }
}

/// The smart policy takes a win where there is one: if some cell would
/// complete a line for the player, the policy marks the first such cell,
/// whatever number was drawn, and the player then owns a line, and is the
/// winner unless the opponent owned a line before.
pub proof fn lemma_smart_takes_win(cells: Seq<TileStatus>, player: Players, pick: u64)
    requires
        cells.len() == 9,
        can_complete(cells, player),
    ensures
        ({
            let k = smart_choice(cells, player, pick);
            let after = placed_at(cells, k, player);
            &&& is_first_completing(cells, k, player)
            &&& owns_some_line(after, player)
            &&& !owns_some_line(cells, player.opponent()) ==> winner_of(after) == winner_for(
                player,
            )
        }),
{
    lemma_first_completing_exists(cells, player);
    lemma_completing_mark_wins(cells, smart_choice(cells, player, pick), player);
}

/// The smart policy blocks where it cannot win: if no cell would complete a
/// line for the player and some cell would complete one for the opponent, the
/// policy marks the first such cell, whatever number was drawn, so that the
/// opponent can no longer take it.
pub proof fn lemma_smart_blocks(cells: Seq<TileStatus>, player: Players, pick: u64)
    requires
        cells.len() == 9,
        !can_complete(cells, player),
        can_complete(cells, player.opponent()),
    ensures
        ({
            let k = smart_choice(cells, player, pick);
            let after = placed_at(cells, k, player);
            &&& is_first_completing(cells, k, player.opponent())
            &&& after[k].owner() == Some(player)
            &&& !completes_line(after, k, player.opponent())
        }),
{
    lemma_first_completing_exists(cells, player.opponent());
}

/// With nothing to win and nothing to block the smart policy is the random
/// policy.
pub proof fn lemma_smart_falls_back(cells: Seq<TileStatus>, player: Players, pick: u64)
    requires
        !can_complete(cells, player),
        !can_complete(cells, player.opponent()),
    ensures
        smart_choice(cells, player, pick) == random_choice(cells, pick),
{
}

/// Whatever the policy and the number drawn, the computer marks one unmarked
/// cell for its player and leaves every other cell as it was.
pub proof fn lemma_ai_marks_one_vacant_cell(
    cells: Seq<TileStatus>,
    ai_mode: AiMode,
    player: Players,
    pick: u64,
)
    requires
        cells.len() == 9,
        !all_marked(cells),
    ensures
        ({
            let k = ai_choice(cells, ai_mode, player, pick);
            let after = ai_move(cells, ai_mode, player, pick);
            &&& 0 <= k < 9
            &&& cells[k].is_vacant()
            &&& after.len() == 9
            &&& after[k] == TileStatus::marked_by(player)
            &&& forall|j: int| 0 <= j < 9 && j != k ==> #[trigger] after[j] == cells[j]
        }),
{
    lemma_random_choice(cells, pick);
    if can_complete(cells, player) {
        lemma_first_completing_exists(cells, player);
    }
    if can_complete(cells, player.opponent()) {
        lemma_first_completing_exists(cells, player.opponent());
    }
}

} // verus!
