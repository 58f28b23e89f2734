//! The rules of a session: what the menus' numbers mean, whose turn it is,
//! when the computer replies and when the game is over.

use crate::ai::{ai_move, draw_number, lemma_ai_marks_one_vacant_cell, process_ai_with};
use crate::board::{
    all_marked, is_board_full, some_cursor, AiMode, GameBoard, GameMode, Players, TileStatus,
    Winner,
};
use crate::movement::{cursor_restored, movement_of, process_movement, restore_cursor};
use crate::won::{
    has_someone_won, lemma_nobody_iff_no_line, lemma_winner_ignores_cursor,
    lemma_winner_owns_line, owns_some_line, winner_of,
};
use vstd::prelude::*;

verus! {

/// The game mode that a number typed at the first menu stands for.
pub open spec fn game_mode_of(choice: u32) -> Option<GameMode> {
    if choice == 0 {
        Some(GameMode::Spectate)
    } else if choice == 1 {
        Some(GameMode::SinglePlayer)
    } else if choice == 2 {
        Some(GameMode::TwoPlayer)
    } else {
        None
    }
}

/// The policy that a number typed at the second menu stands for.
pub open spec fn ai_mode_of(choice: u32) -> Option<AiMode> {
    if choice == 1 {
        Some(AiMode::Random)
    } else if choice == 2 {
        Some(AiMode::SmartRandom)
    } else {
        None
    }
}

/// The game mode for the number of human players typed at the menu: none
/// for 0, one for 1, two for 2. Any other number is no answer.
pub fn game_mode_choice(choice: u32) -> (mode: Option<GameMode>)
    ensures
        mode == game_mode_of(choice),
{
    match choice {
        0 => Some(GameMode::Spectate),
        1 => Some(GameMode::SinglePlayer),
        2 => Some(GameMode::TwoPlayer),
        _ => None,
    }
}

/// The computer's policy for the number typed at the menu: the random one
/// for 1, the smart one for 2. Any other number is no answer.
pub fn ai_mode_choice(choice: u32) -> (mode: Option<AiMode>)
    ensures
        mode == ai_mode_of(choice),
{
    match choice {
        1 => Some(AiMode::Random),
        2 => Some(AiMode::SmartRandom),
        _ => None,
    }
}

/// How a game stands once a mark was placed.
#[derive(Copy, Clone, Debug, PartialEq, Eq, Structural)]
pub enum Standing {
    /// Nobody owns a line and some cell is unmarked.
    Open,
    /// The player owns a line.
    Won(Players),
    /// Nobody owns a line and every cell is marked.
    Tie,
}

/// What one turn came to.
#[derive(Copy, Clone, Debug, PartialEq, Eq, Structural)]
pub enum Progress {
    /// The input was rejected: the same player is asked again.
    Rejected,
    /// The cursor moved: the same player goes on.
    Moved,
    /// A mark was placed, the computer replied where it takes part, and the
    /// game goes on.
    Played,
    /// The game is over. `replied` tells whether the computer's reply ended
    /// it, rather than the mark placed before.
    Over { standing: Standing, replied: bool },
}

/// A game in progress.
#[derive(Copy, Clone, Debug, PartialEq, Eq)]
pub struct Game {
    pub game_board: GameBoard,
    /// On a human's turn the player who is asked; in spectate mode the player
    /// the computer moves for next.
    pub current_player: Players,
    pub game_mode: GameMode,
    pub ai_mode: AiMode,
}

/// A game as its cells, the player to move and the two modes.
pub struct GameView {
    pub cells: Seq<TileStatus>,
    pub current_player: Players,
    pub game_mode: GameMode,
    pub ai_mode: AiMode,
}

impl View for Game {
    type V = GameView;

    open spec fn view(&self) -> GameView {
        GameView {
            cells: self.game_board@,
            current_player: self.current_player,
            game_mode: self.game_mode,
            ai_mode: self.ai_mode,
        }
    }
}

impl GameView {
    /// Whether a turn can be taken: nine cells; the cursor on the board where
    /// a human steers it; a policy where the computer moves.
    pub open spec fn ready(self) -> bool {
        &&& self.cells.len() == 9
        &&& self.game_mode != GameMode::Spectate ==> some_cursor(self.cells)
        &&& self.game_mode != GameMode::TwoPlayer ==> self.ai_mode != AiMode::Off
    }

    /// The same game on other cells.
    pub open spec fn on(self, cells: Seq<TileStatus>) -> GameView {
        GameView { cells, ..self }
    }

    /// The same game with `player` to move.
    pub open spec fn to_move(self, player: Players) -> GameView {
        GameView { current_player: player, ..self }
    }
}

/// How a game stands on the given cells: a winner is looked for first, a full
/// board next.
pub open spec fn standing_of(cells: Seq<TileStatus>) -> Standing {
    match winner_of(cells) {
        Winner::Cross => Standing::Won(Players::Cross),
        Winner::Nought => Standing::Won(Players::Nought),
        Winner::Nobody => if all_marked(cells) {
            Standing::Tie
        } else {
            Standing::Open
        },
    }
}

/// The game and the progress after a mark was placed, with `pick` as the
/// number drawn for the computer.
///
/// A win or a tie ends the game at once. Else, with two humans, the turn
/// passes to the other player. With one human the computer replies for the
/// other player and the turn comes back to the human; in spectate mode the
/// computer moves for the current player and the turn passes on. The reply
/// may end the game too. Where the game goes on and a human is next, the
/// cursor is put back on the first unmarked cell.
pub open spec fn settled(game: GameView, pick: u64) -> (GameView, Progress) {
    let first = standing_of(game.cells);
    if first != Standing::Open {
        (game, Progress::Over { standing: first, replied: false })
    } else if game.game_mode == GameMode::TwoPlayer {
        (
            game.on(cursor_restored(game.cells)).to_move(game.current_player.opponent()),
            Progress::Played,
        )
    } else {
        let mover = if game.game_mode == GameMode::SinglePlayer {
            game.current_player.opponent()
        } else {
            game.current_player
        };
        let cells = ai_move(game.cells, game.ai_mode, mover, pick);
        let second = standing_of(cells);
        let next = game.to_move(mover.opponent());
        if second != Standing::Open {
            (next.on(cells), Progress::Over { standing: second, replied: true })
        } else if game.game_mode == GameMode::SinglePlayer {
            (next.on(cursor_restored(cells)), Progress::Played)
        } else {
            (next.on(cells), Progress::Played)
        }
    }
}

/// The game and the progress after one turn on `input`, with `pick` as the
/// number drawn for the computer.
///
/// In spectate mode no input is read and the turn is the computer's. Else
/// the movement engine answers the input: a rejection and a step of the
/// cursor leave the turn with the same player, a placement is settled.
pub open spec fn turn_of(game: GameView, input: u32, pick: u64) -> (GameView, Progress) {
    if game.game_mode == GameMode::Spectate {
        settled(game, pick)
    } else {
        let answer = movement_of(game.cells, game.current_player, input);
        match answer.0 {
            None => (game, Progress::Rejected),
            Some(cells) => if answer.1 {
                settled(game.on(cells), pick)
            } else {
                (game.on(cells), Progress::Moved)
            },
        }
    }
}

/// How the game stands on the board.
pub fn standing(game_board: GameBoard) -> (how: Standing)
    ensures
        how == standing_of(game_board@),
{
    match has_someone_won(game_board) {
        Winner::Cross => Standing::Won(Players::Cross),
        Winner::Nought => Standing::Won(Players::Nought),
        Winner::Nobody => if is_board_full(game_board) {
            Standing::Tie
        } else {
            Standing::Open
        },
    }
}

impl Game {
    /// A game at its start: the cursor in the top left corner of an empty
    /// board, cross to move.
    pub fn new(game_mode: GameMode, ai_mode: AiMode) -> (game: Game)
        ensures
            game@ == (GameView {
                cells: crate::board::initial_cells(),
                current_player: Players::Cross,
                game_mode,
                ai_mode,
            }),
    {
        Game { game_board: GameBoard::new(), current_player: Players::Cross, game_mode, ai_mode }
    }

    /// Settles the game after a mark was placed, with `pick` as the number
    /// drawn for the computer.
    pub fn settle(self, pick: u64) -> (next: (Game, Progress))
        requires
            self@.cells.len() == 9,
            self.game_mode != GameMode::TwoPlayer ==> self.ai_mode != AiMode::Off,
        ensures
            next.0@ == settled(self@, pick).0,
            next.1 == settled(self@, pick).1,
    {
        let first = standing(self.game_board);
        match first {
            Standing::Open => {},
            _ => {
                return (self, Progress::Over { standing: first, replied: false });
            },
        }
        match self.game_mode {
            GameMode::TwoPlayer => {
                let game = Game {
                    game_board: restore_cursor(self.game_board),
                    current_player: self.current_player.opponent(),
                    game_mode: self.game_mode,
                    ai_mode: self.ai_mode,
                };
                (game, Progress::Played)
            },
            _ => {
                let single = match self.game_mode {
                    GameMode::SinglePlayer => true,
                    _ => false,
                };
                let mover = if single {
                    self.current_player.opponent()
                } else {
                    self.current_player
                };
                let board = process_ai_with(self.game_board, self.ai_mode, mover, pick);
                let second = standing(board);
                let open = match second {
                    Standing::Open => true,
                    _ => false,
                };
                let game = Game {
                    game_board: if open && single {
                        restore_cursor(board)
                    } else {
                        board
                    },
                    current_player: mover.opponent(),
                    game_mode: self.game_mode,
                    ai_mode: self.ai_mode,
                };
                if open {
                    (game, Progress::Played)
                } else {
                    (game, Progress::Over { standing: second, replied: true })
                }
            },
        }
    }

    /// Takes one turn on `input`, with `pick` as the number drawn for the
    /// computer. While the game is not over the game that comes back is ready
    /// for the next turn.
    pub fn take_turn_with(self, input: u32, pick: u64) -> (next: (Game, Progress))
        requires
            self@.ready(),
        ensures
            next.0@ == turn_of(self@, input, pick).0,
            next.1 == turn_of(self@, input, pick).1,
            !(next.1 is Over) ==> next.0@.ready(),
    {
        proof {
            lemma_turn_keeps_ready(self@, input, pick);
        }
        match self.game_mode {
            GameMode::Spectate => self.settle(pick),
            _ => {
                let answer = process_movement(self.game_board, self.current_player, input);
                match answer.game_board {
                    None => (self, Progress::Rejected),
                    Some(board) => {
                        let game = Game {
                            game_board: board,
                            current_player: self.current_player,
                            game_mode: self.game_mode,
                            ai_mode: self.ai_mode,
                        };
                        if answer.placed {
                            game.settle(pick)
                        } else {
                            (game, Progress::Moved)
                        }
                    },
                }
            },
        }
    }

    /// Takes one turn on `input`. The number that the computer may need is
    /// drawn from the process's source of randomness, so the turn is the one
    /// that `take_turn_with` takes for some number.
    pub fn take_turn(self, input: u32) -> (next: (Game, Progress))
        requires
            self@.ready(),
        ensures
            exists|pick: u64|
                next.0@ == (#[trigger] turn_of(self@, input, pick)).0 && next.1 == turn_of(
                    self@,
                    input,
                    pick,
                ).1,
            !(next.1 is Over) ==> next.0@.ready(),
    {
        let pick = draw_number();
        self.take_turn_with(input, pick)
    }
}

/// While the game is not over, a turn leaves it ready for the next one.
pub proof fn lemma_turn_keeps_ready(game: GameView, input: u32, pick: u64)
    requires
        game.ready(),
    ensures
        turn_of(game, input, pick).0.cells.len() == 9,
        !(turn_of(game, input, pick).1 is Over) ==> turn_of(game, input, pick).0.ready(),
{
    let placed = if game.game_mode == GameMode::Spectate {
        game
    } else {
        let answer = movement_of(game.cells, game.current_player, input);
        if answer.0 is Some {
            game.on(answer.0->0)
        } else {
            game
        }
    };
    if game.game_mode != GameMode::Spectate {
        crate::movement::lemma_cursor_cell_carries_cursor(game.cells);
        let answer = movement_of(game.cells, game.current_player, input);
        if answer.0 is Some && !answer.1 {
            let k = crate::board::cursor_cell(game.cells);
            let after = answer.0->0;
            let target = crate::movement::step_from(k / 3, k % 3, input)->0;
            let t = crate::board::cell_index(target.0, target.1);
            assert(after[t].has_cursor());
        }
    }
    assert(placed.cells.len() == 9);
    lemma_settled_keeps_ready(placed, pick);
}

/// While the game is not over, settling a placement leaves the game ready for
/// the next turn.
pub proof fn lemma_settled_keeps_ready(game: GameView, pick: u64)
    requires
        game.cells.len() == 9,
        game.game_mode != GameMode::TwoPlayer ==> game.ai_mode != AiMode::Off,
    ensures
        settled(game, pick).0.cells.len() == 9,
        !(settled(game, pick).1 is Over) ==> settled(game, pick).0.ready(),
{
    if standing_of(game.cells) == Standing::Open {
        if game.game_mode == GameMode::TwoPlayer {
            lemma_restored_has_cursor(game.cells);
        } else {
            let mover = if game.game_mode == GameMode::SinglePlayer {
                game.current_player.opponent()
            } else {
                game.current_player
            };
            lemma_ai_marks_one_vacant_cell(game.cells, game.ai_mode, mover, pick);
            let cells = ai_move(game.cells, game.ai_mode, mover, pick);
            if standing_of(cells) == Standing::Open {
                lemma_restored_has_cursor(cells);
            }
        }
    }
}

/// On a board that is not full the cursor is there once it was put back.
pub proof fn lemma_restored_has_cursor(cells: Seq<TileStatus>)
    requires
        cells.len() == 9,
        !all_marked(cells),
    ensures
        cursor_restored(cells).len() == 9,
        some_cursor(cursor_restored(cells)),
{
    if !some_cursor(cells) {
        crate::board::lemma_vacant_cells(cells);
        let k = crate::board::vacant_cells(cells)[0];
        assert(cursor_restored(cells)[k].has_cursor());
    }
}

/// What a standing says of the cells: a winner owns a line; after a tie every
/// cell is marked and nobody owns a line; while the game is open nobody owns a
/// line and some cell is unmarked.
pub proof fn lemma_standing(cells: Seq<TileStatus>)
    ensures
        forall|player: Players| #[trigger]
            standing_of(cells) == Standing::Won(player) ==> owns_some_line(cells, player),
        standing_of(cells) == Standing::Tie ==> all_marked(cells) && !owns_some_line(
            cells,
            Players::Cross,
        ) && !owns_some_line(cells, Players::Nought),
        standing_of(cells) == Standing::Open ==> !all_marked(cells) && !owns_some_line(
            cells,
            Players::Cross,
        ) && !owns_some_line(cells, Players::Nought),
{
    lemma_nobody_iff_no_line(cells);
    if winner_of(cells) == Winner::Cross {
        lemma_winner_owns_line(cells, Players::Cross);
    }
    if winner_of(cells) == Winner::Nought {
        lemma_winner_owns_line(cells, Players::Nought);
    }
}

/// The cursor is nothing to the standing: two boards whose cells have the
/// same owners stand alike.
pub proof fn lemma_standing_ignores_cursor(a: Seq<TileStatus>, b: Seq<TileStatus>)
    requires
        a.len() == 9,
        b.len() == 9,
        forall|j: int| 0 <= j < 9 ==> (#[trigger] a[j]).owner() == b[j].owner(),
    ensures
        standing_of(a) == standing_of(b),
{
    lemma_winner_ignores_cursor(a, b);
    if all_marked(a) {
        assert forall|k: int| 0 <= k < b.len() implies !(#[trigger] b[k]).is_vacant() by {
            assert(a[k].owner() == b[k].owner());
        }
    }
    if all_marked(b) {
        assert forall|k: int| 0 <= k < a.len() implies !(#[trigger] a[k]).is_vacant() by {
            assert(a[k].owner() == b[k].owner());
        }
    }
}

/// Putting the cursor back changes no owner.
pub proof fn lemma_restored_keeps_owners(cells: Seq<TileStatus>)
    requires
        cells.len() == 9,
    ensures
        cursor_restored(cells).len() == 9,
        forall|j: int| 0 <= j < 9 ==> (#[trigger] cursor_restored(cells)[j]).owner() == cells[j].owner(),
{
    crate::board::lemma_vacant_cells(cells);
}

/// What settling a placement comes to. The progress is never a rejection or
/// a step. It is `Over` exactly with the standing of the cells that come
/// back, which is then not open; it is `Played` only where those cells stand
/// open. No mark that was on the board is lost or changed.
pub proof fn lemma_settled(game: GameView, pick: u64)
    requires
        game.cells.len() == 9,
        game.game_mode != GameMode::TwoPlayer ==> game.ai_mode != AiMode::Off,
    ensures
        ({
            let after = settled(game, pick).0;
            let progress = settled(game, pick).1;
            &&& after.cells.len() == 9
            &&& after.game_mode == game.game_mode
            &&& after.ai_mode == game.ai_mode
            &&& progress is Over || progress is Played
            &&& progress is Over ==> progress->standing == standing_of(after.cells)
                && progress->standing != Standing::Open
            &&& progress is Played ==> standing_of(after.cells) == Standing::Open
            &&& forall|j: int|
                0 <= j < 9 && !(#[trigger] game.cells[j]).is_vacant() ==> after.cells[j].owner()
                    == game.cells[j].owner()
        }),
{
    lemma_settled_keeps_ready(game, pick);
    lemma_restored_keeps_owners(game.cells);
    lemma_standing_ignores_cursor(cursor_restored(game.cells), game.cells);
    if standing_of(game.cells) == Standing::Open && game.game_mode != GameMode::TwoPlayer {
        let mover = if game.game_mode == GameMode::SinglePlayer {
            game.current_player.opponent()
        } else {
            game.current_player
        };
        lemma_ai_marks_one_vacant_cell(game.cells, game.ai_mode, mover, pick);
        let cells = ai_move(game.cells, game.ai_mode, mover, pick);
        lemma_restored_keeps_owners(cells);
        lemma_standing_ignores_cursor(cursor_restored(cells), cells);
    }
}

/// What a turn comes to. A rejection leaves the game as it was. The progress
/// is `Over` exactly with the standing of the cells that come back, which is
/// then not open; it is `Played` only where those cells stand open. No mark
/// that was on the board is lost or changed, and the modes stay.
pub proof fn lemma_turn(game: GameView, input: u32, pick: u64)
    requires
        game.ready(),
    ensures
        ({
            let after = turn_of(game, input, pick).0;
            let progress = turn_of(game, input, pick).1;
            &&& after.cells.len() == 9
            &&& after.game_mode == game.game_mode
            &&& after.ai_mode == game.ai_mode
            &&& progress is Rejected ==> after == game
            &&& progress is Moved ==> after.current_player == game.current_player
            &&& progress is Over ==> progress->standing == standing_of(after.cells)
                && progress->standing != Standing::Open
            &&& progress is Played ==> standing_of(after.cells) == Standing::Open
            &&& forall|j: int|
                0 <= j < 9 && !(#[trigger] game.cells[j]).is_vacant() ==> after.cells[j].owner()
                    == game.cells[j].owner()
        }),
{
    if game.game_mode == GameMode::Spectate {
        lemma_settled(game, pick);
    } else {
        crate::movement::lemma_cursor_cell_carries_cursor(game.cells);
        let answer = movement_of(game.cells, game.current_player, input);
        if answer.0 is Some {
            let placed = game.on(answer.0->0);
            assert(placed.cells.len() == 9);
            assert forall|j: int|
                0 <= j < 9 && !(#[trigger] game.cells[j]).is_vacant() implies placed.cells[j].owner()
                == game.cells[j].owner() by {}
            if answer.1 {
                lemma_settled(placed, pick);
            }
        }
    }
}

} // verus!
