//! The board model: tiles, players and the three-by-three grid.

use vstd::prelude::*;

verus! {

/// Whether the cursor lies over a marked tile.
#[derive(Copy, Clone, Debug, PartialEq, Eq, Structural)]
pub enum Cursor {
    True,
    False,
}

/// The state of one cell of the board.
#[derive(Copy, Clone, Debug, PartialEq, Eq, Structural)]
pub enum TileStatus {
    /// Marked by the nought player; the flag tells whether the cursor lies over it.
    Nought(Cursor),
    /// Marked by the cross player; the flag tells whether the cursor lies over it.
    Cross(Cursor),
    /// Unmarked, and the cursor is here.
    Cursor,
    /// Unmarked.
    Empty,
}

/// The two players. Cross moves first.
#[derive(Copy, Clone, Debug, PartialEq, Eq, Structural)]
pub enum Players {
    Nought,
    Cross,
}

/// Who owns a complete line, if anyone.
#[derive(Copy, Clone, Debug, PartialEq, Eq, Structural)]
pub enum Winner {
    Nought,
    Cross,
    /// No line is complete.
    Nobody,
}

/// How many humans take part.
#[derive(Copy, Clone, Debug, PartialEq, Eq, Structural)]
pub enum GameMode {
    TwoPlayer,
    SinglePlayer,
    Spectate,
}

/// The policy of the computer player.
#[derive(Copy, Clone, Debug, PartialEq, Eq, Structural)]
pub enum AiMode {
    Random,
    SmartRandom,
    /// No computer player takes part.
    Off,
}

/// The grid, row by row from the top.
#[derive(Copy, Clone, Debug, PartialEq, Eq)]
pub struct GameBoard {
    pub row_one: [TileStatus; 3],
    pub row_two: [TileStatus; 3],
    pub row_three: [TileStatus; 3],
}

/// The error of a search for the cursor on a board that carries none.
#[derive(Copy, Clone, Debug, PartialEq, Eq, Structural)]
pub struct NoCursorFound;

impl Players {
    /// The other player.
    pub open spec fn spec_opponent(self) -> Players {
        match self {
            Players::Nought => Players::Cross,
            Players::Cross => Players::Nought,
        }
    }

    /// The other player.
    #[verifier::when_used_as_spec(spec_opponent)]
    pub fn opponent(self) -> (other: Players)
        ensures
            other == self.spec_opponent(),
    {
        match self {
            Players::Nought => Players::Cross,
            Players::Cross => Players::Nought,
        }
    }
}

impl TileStatus {
    /// The player whose mark the tile carries, if it carries one.
    pub open spec fn spec_owner(self) -> Option<Players> {
        match self {
            TileStatus::Nought(_) => Some(Players::Nought),
            TileStatus::Cross(_) => Some(Players::Cross),
            TileStatus::Cursor => None,
            TileStatus::Empty => None,
        }
    }

    /// Whether the tile carries no mark, with or without the cursor on it.
    pub open spec fn is_vacant(self) -> bool {
        self.spec_owner() is None
    }

    /// Whether the cursor is on the tile.
    pub open spec fn spec_has_cursor(self) -> bool {
        match self {
            TileStatus::Nought(flag) => flag == Cursor::True,
            TileStatus::Cross(flag) => flag == Cursor::True,
            TileStatus::Cursor => true,
            TileStatus::Empty => false,
        }
    }

    /// The same tile with the cursor on it.
    pub open spec fn spec_with_cursor(self) -> TileStatus {
        match self {
            TileStatus::Nought(_) => TileStatus::Nought(Cursor::True),
            TileStatus::Cross(_) => TileStatus::Cross(Cursor::True),
            TileStatus::Cursor => TileStatus::Cursor,
            TileStatus::Empty => TileStatus::Cursor,
        }
    }

    /// The same tile with the cursor taken off it.
    pub open spec fn spec_without_cursor(self) -> TileStatus {
        match self {
            TileStatus::Nought(_) => TileStatus::Nought(Cursor::False),
            TileStatus::Cross(_) => TileStatus::Cross(Cursor::False),
            TileStatus::Cursor => TileStatus::Empty,
            TileStatus::Empty => TileStatus::Empty,
        }
    }

    /// The tile that a placement by `player` leaves: the mark, and no cursor.
    pub open spec fn spec_marked_by(player: Players) -> TileStatus {
        match player {
            Players::Nought => TileStatus::Nought(Cursor::False),
            Players::Cross => TileStatus::Cross(Cursor::False),
        }
    }

    /// The player whose mark the tile carries, if it carries one.
    #[verifier::when_used_as_spec(spec_owner)]
    pub fn owner(self) -> (owner: Option<Players>)
        ensures
            owner == self.spec_owner(),
    {
        match self {
            TileStatus::Nought(_) => Some(Players::Nought),
            TileStatus::Cross(_) => Some(Players::Cross),
            TileStatus::Cursor => None,
            TileStatus::Empty => None,
        }
    }

    /// Whether the cursor is on the tile.
    #[verifier::when_used_as_spec(spec_has_cursor)]
    pub fn has_cursor(self) -> (on: bool)
        ensures
            on == self.spec_has_cursor(),
    {
        match self {
            TileStatus::Nought(Cursor::True) => true,
            TileStatus::Cross(Cursor::True) => true,
            TileStatus::Cursor => true,
            _ => false,
        }
    }

    /// The same tile with the cursor on it.
    #[verifier::when_used_as_spec(spec_with_cursor)]
    pub fn with_cursor(self) -> (tile: TileStatus)
        ensures
            tile == self.spec_with_cursor(),
    {
        match self {
            TileStatus::Nought(_) => TileStatus::Nought(Cursor::True),
            TileStatus::Cross(_) => TileStatus::Cross(Cursor::True),
            _ => TileStatus::Cursor,
        }
    }

    /// The same tile with the cursor taken off it.
    #[verifier::when_used_as_spec(spec_without_cursor)]
    pub fn without_cursor(self) -> (tile: TileStatus)
        ensures
            tile == self.spec_without_cursor(),
    {
        match self {
            TileStatus::Nought(_) => TileStatus::Nought(Cursor::False),
            TileStatus::Cross(_) => TileStatus::Cross(Cursor::False),
            _ => TileStatus::Empty,
        }
    }

    /// The tile that a placement by `player` leaves: the mark, and no cursor.
    #[verifier::when_used_as_spec(spec_marked_by)]
    pub fn marked_by(player: Players) -> (tile: TileStatus)
        ensures
            tile == TileStatus::spec_marked_by(player),
    {
        match player {
            Players::Nought => TileStatus::Nought(Cursor::False),
            Players::Cross => TileStatus::Cross(Cursor::False),
        }
    }
}

/// Whether no player has marked the tile.
pub fn no_player(tile: TileStatus) -> (vacant: bool)
    ensures
        vacant == tile.is_vacant(),
{
    match tile {
        TileStatus::Cursor => true,
        TileStatus::Empty => true,
        _ => false,
    }
}

/// Hands the turn to the other player.
pub fn switch_player(current_player: Players) -> (next: Players)
    ensures
        next == current_player.opponent(),
{
    current_player.opponent()
}

/// The place of the cell at `row` and `col` in the row-major order of the cells.
pub open spec fn cell_index(row: int, col: int) -> int {
    3 * row + col
}

/// The cells of the board a game starts on: the cursor in the top left corner,
/// every other cell empty.
pub open spec fn initial_cells() -> Seq<TileStatus> {
    Seq::new(9, |k: int| if k == 0 { TileStatus::Cursor } else { TileStatus::Empty })
}

/// Whether `k` is the first cell, in row-major order, that carries the cursor.
pub open spec fn is_first_cursor(cells: Seq<TileStatus>, k: int) -> bool {
    &&& 0 <= k < cells.len()
    &&& cells[k].has_cursor()
    &&& forall|j: int| 0 <= j < k ==> !(#[trigger] cells[j]).has_cursor()
}

/// Whether some cell carries the cursor.
pub open spec fn some_cursor(cells: Seq<TileStatus>) -> bool {
    exists|k: int| 0 <= k < cells.len() && (#[trigger] cells[k]).has_cursor()
}

/// Whether `k` is the one cell that carries the cursor.
pub open spec fn sole_cursor(cells: Seq<TileStatus>, k: int) -> bool {
    &&& 0 <= k < cells.len()
    &&& forall|j: int| 0 <= j < cells.len() ==> ((#[trigger] cells[j]).has_cursor() <==> j == k)
}

/// The first cell, in row-major order, that carries the cursor. It is
/// meaningful where `some_cursor` holds.
pub open spec fn cursor_cell(cells: Seq<TileStatus>) -> int {
    choose|k: int| is_first_cursor(cells, k)
}

/// The cells after `player` marked cell `k`: the mark without a cursor there,
/// every other cell as before.
pub open spec fn placed_at(cells: Seq<TileStatus>, k: int, player: Players) -> Seq<TileStatus> {
    cells.update(k, TileStatus::marked_by(player))
}

/// Whether every cell carries a mark.
pub open spec fn all_marked(cells: Seq<TileStatus>) -> bool {
    forall|k: int| 0 <= k < cells.len() ==> !(#[trigger] cells[k]).is_vacant()
}

impl View for GameBoard {
    type V = Seq<TileStatus>;

    /// The nine cells in row-major order: the cell at `row` and `col` is at
    /// `cell_index(row, col)`.
    open spec fn view(&self) -> Seq<TileStatus> {
        self.row_one@ + self.row_two@ + self.row_three@
    }
}

impl GameBoard {
    /// The board a game starts on.
    pub fn new() -> (board: GameBoard)
        ensures
            board@ == initial_cells(),
    {
        let board = GameBoard {
            row_one: [TileStatus::Cursor, TileStatus::Empty, TileStatus::Empty],
            row_two: [TileStatus::Empty, TileStatus::Empty, TileStatus::Empty],
            row_three: [TileStatus::Empty, TileStatus::Empty, TileStatus::Empty],
        };
        assert(board@ =~= initial_cells());
        board
    }

    /// The tile at place `index` of the row-major order.
    pub fn tile(&self, index: usize) -> (tile: TileStatus)
        requires
            index < 9,
        ensures
            tile == self@[index as int],
    {
        if index < 3 {
            self.row_one[index]
        } else if index < 6 {
            self.row_two[index - 3]
        } else {
            self.row_three[index - 6]
        }
    }

    /// The tile at `row` and `col`, both counted from zero.
    pub fn cell_at(&self, row: usize, col: usize) -> (tile: TileStatus)
        requires
            row < 3,
            col < 3,
        ensures
            tile == self@[cell_index(row as int, col as int)],
    {
        self.tile(3 * row + col)
    }

    /// The board with the tile at place `index` replaced by `tile`.
    pub fn with_tile(self, index: usize, tile: TileStatus) -> (board: GameBoard)
        requires
            index < 9,
        ensures
            board@ == self@.update(index as int, tile),
    {
        let mut board = self;
        if index < 3 {
            board.row_one[index] = tile;
        } else if index < 6 {
            board.row_two[index - 3] = tile;
        } else {
            board.row_three[index - 6] = tile;
        }
        assert(board@ =~= self@.update(index as int, tile));
        board
    }

    /// The row and column of the cursor: of the first cell in row-major order
    /// that carries it. Fails exactly when no cell carries the cursor.
    pub fn cursor_position(&self) -> (found: Result<(usize, usize), NoCursorFound>)
        ensures
            match found {
                Ok((row, col)) => row < 3 && col < 3 && is_first_cursor(
                    self@,
                    cell_index(row as int, col as int),
                ),
                Err(_) => !some_cursor(self@),
            },
    {
        let mut k: usize = 0;
        while k < 9
            invariant
                k <= 9,
                self@.len() == 9,
                forall|j: int| 0 <= j < k ==> !(#[trigger] self@[j]).has_cursor(),
            decreases 9 - k,
        {
            if self.tile(k).has_cursor() {
                return Ok((k / 3, k % 3));
            }
            k += 1;
        }
        Err(NoCursorFound)
    }
}

/// Whether every cell of the board carries a mark, whatever the cursor does.
pub fn is_board_full(game_board: GameBoard) -> (full: bool)
    ensures
        full == all_marked(game_board@),
{
    let mut k: usize = 0;
    while k < 9
        invariant
            k <= 9,
            game_board@.len() == 9,
            forall|j: int| 0 <= j < k ==> !(#[trigger] game_board@[j]).is_vacant(),
        decreases 9 - k,
    {
        if no_player(game_board.tile(k)) {
            return false;
        }
        k += 1;
    }
    true
}

/// A cell that carries the cursor with none before it is the cursor's cell.
pub proof fn lemma_cursor_cell(cells: Seq<TileStatus>, k: int)
    requires
        is_first_cursor(cells, k),
    ensures
        cursor_cell(cells) == k,
{
    let c = cursor_cell(cells);
    assert(is_first_cursor(cells, c));
    if c < k {
        assert(!cells[c].has_cursor());
    } else if k < c {
        assert(!cells[k].has_cursor());
    }
}

/// The unmarked cells among the first `n`, in row-major order.
pub open spec fn vacant_among(cells: Seq<TileStatus>, n: int) -> Seq<int> {
    Seq::new(n as nat, |k: int| k).filter(|k: int| cells[k].is_vacant())
}

/// The unmarked cells of a board, in row-major order, with or without the
/// cursor on them.
pub open spec fn vacant_cells(cells: Seq<TileStatus>) -> Seq<int> {
    vacant_among(cells, cells.len() as int)
}

/// The numbers of a sequence of indices.
pub open spec fn as_ints(indices: Seq<usize>) -> Seq<int> {
    indices.map_values(|k: usize| k as int)
}

/// One more cell looked at adds that cell to the unmarked ones if it is
/// unmarked, and nothing otherwise.
proof fn lemma_vacant_among_step(cells: Seq<TileStatus>, n: int)
    requires
        0 <= n,
    ensures
        vacant_among(cells, n + 1) == if cells[n].is_vacant() {
            vacant_among(cells, n).push(n)
        } else {
            vacant_among(cells, n)
        },
        vacant_among(cells, 0) == Seq::<int>::empty(),
{
    reveal(Seq::filter);
    let longer = Seq::new((n + 1) as nat, |k: int| k);
    assert(longer.drop_last() =~= Seq::new(n as nat, |k: int| k));
    assert(longer.last() == n);
    assert(Seq::new(0nat, |k: int| k).len() == 0);
}

/// What the unmarked cells among the first `n` are: they are cells below `n`,
/// each unmarked, in rising order, and every unmarked cell below `n` is among
/// them.
pub proof fn lemma_vacant_among(cells: Seq<TileStatus>, n: int)
    requires
        0 <= n <= cells.len(),
    ensures
        vacant_among(cells, n).len() <= n,
        forall|i: int|
            0 <= i < vacant_among(cells, n).len() ==> 0 <= (#[trigger] vacant_among(cells, n)[i])
                < n && cells[vacant_among(cells, n)[i]].is_vacant(),
        forall|i: int, j: int|
            0 <= i < j < vacant_among(cells, n).len() ==> (#[trigger] vacant_among(cells, n)[i])
                < (#[trigger] vacant_among(cells, n)[j]),
        forall|k: int|
            0 <= k < n && (#[trigger] cells[k]).is_vacant() ==> vacant_among(cells, n).contains(k),
    decreases n,
{
    if n == 0 {
        lemma_vacant_among_step(cells, 0);
    } else {
        lemma_vacant_among(cells, n - 1);
        lemma_vacant_among_step(cells, n - 1);
        let before = vacant_among(cells, n - 1);
        let now = vacant_among(cells, n);
        assert forall|k: int| 0 <= k < n && (#[trigger] cells[k]).is_vacant() implies now.contains(
            k,
        ) by {
            if k < n - 1 {
                assert(before.contains(k));
                let i = choose|i: int| 0 <= i < before.len() && before[i] == k;
                assert(now[i] == k);
            } else {
                assert(now[now.len() - 1] == k);
            }
        }
    }
}

/// What the unmarked cells of a board are; there is one exactly when the
/// board is not full.
pub proof fn lemma_vacant_cells(cells: Seq<TileStatus>)
    ensures
        vacant_cells(cells).len() <= cells.len(),
        forall|i: int|
            0 <= i < vacant_cells(cells).len() ==> 0 <= (#[trigger] vacant_cells(cells)[i])
                < cells.len() && cells[vacant_cells(cells)[i]].is_vacant(),
        forall|i: int, j: int|
            0 <= i < j < vacant_cells(cells).len() ==> (#[trigger] vacant_cells(cells)[i]) < (
            #[trigger] vacant_cells(cells)[j]),
        forall|k: int|
            0 <= k < cells.len() && (#[trigger] cells[k]).is_vacant() ==> vacant_cells(
                cells,
            ).contains(k),
        vacant_cells(cells).len() == 0 <==> all_marked(cells),
{
    lemma_vacant_among(cells, cells.len() as int);
    let vacant = vacant_cells(cells);
    if vacant.len() > 0 {
        assert(cells[vacant[0]].is_vacant());
    }
    if !all_marked(cells) {
        let k = choose|k: int| 0 <= k < cells.len() && (#[trigger] cells[k]).is_vacant();
        assert(vacant.contains(k));
    }
}

/// The unmarked cells of the board, in row-major order.
pub fn empty_cells(game_board: &GameBoard) -> (found: Vec<usize>)
    ensures
        as_ints(found@) == vacant_cells(game_board@),
{
    let mut found: Vec<usize> = Vec::new();
    let mut k: usize = 0;
    proof {
        lemma_vacant_among_step(game_board@, 0);
    }
    while k < 9
        invariant
            k <= 9,
            game_board@.len() == 9,
            as_ints(found@) =~= vacant_among(game_board@, k as int),
        decreases 9 - k,
    {
        proof {
            lemma_vacant_among_step(game_board@, k as int);
        }
        if no_player(game_board.tile(k)) {
            found.push(k);
        }
        k += 1;
    }
    found
}

/// A board has nine cells.
pub proof fn lemma_nine_cells(board: GameBoard)
    ensures
        board@.len() == 9,
{
}

/// Two boards with the same cells are the same board.
pub proof fn lemma_board_is_its_cells(a: GameBoard, b: GameBoard)
    requires
        a@ == b@,
    ensures
        a == b,
{
    assert forall|i: int| 0 <= i < 3 implies a.row_one[i] == b.row_one[i] by {
        assert(a@[i] == a.row_one[i]);
        assert(b@[i] == b.row_one[i]);
    }
    assert forall|i: int| 0 <= i < 3 implies a.row_two[i] == b.row_two[i] by {
        assert(a@[i + 3] == a.row_two[i]);
        assert(b@[i + 3] == b.row_two[i]);
    }
    assert forall|i: int| 0 <= i < 3 implies a.row_three[i] == b.row_three[i] by {
        assert(a@[i + 6] == a.row_three[i]);
        assert(b@[i + 6] == b.row_three[i]);
    }
    assert(a.row_one =~= b.row_one);
    assert(a.row_two =~= b.row_two);
    assert(a.row_three =~= b.row_three);
}

} // verus!
