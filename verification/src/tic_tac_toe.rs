//! Tic-tac-toe: the board game a knight plays against the tower's keeper.

use crate::coordinate::Coordinate;
use crate::random::random_in_range;
use vstd::prelude::*;
use vstd::std_specs::convert::FromSpecImpl;
use vstd::string::*;

verus! {

/// The two sides. `X` moves first.
#[derive(Debug, Copy, Clone, PartialEq, Eq, Structural)]
pub enum Player {
    X,
    O,
}

/// One square of the board.
#[derive(Copy, Clone, PartialEq, Eq, Debug, Structural)]
pub enum BoardCell {
    Empty,
    Occupied(Player),
}

/// How a finished game ended.
#[derive(Debug, PartialEq, Eq, Copy, Clone, Structural)]
pub enum TicTacToeResult {
    Victory(Player),
    Draw,
}

/// Whose turn it is, or how the game ended.
#[derive(Debug, PartialEq, Eq, Copy, Clone, Structural)]
pub enum GameState {
    InProgress(Player),
    GameEnded(TicTacToeResult),
}

/// Why a move was refused.
#[derive(Debug, PartialEq, Eq, Copy, Clone, Structural)]
pub enum TicTacToeError {
    OccupiedSquare,
    OutOfBounds,
    GameOver,
}

/// The result of a minigame from the player's point of view.
#[derive(Debug, PartialEq, Eq, Copy, Clone, Structural)]
pub enum GameResult {
    Victory,
    Defeat,
    Draw,
}

impl From<TicTacToeResult> for GameResult {
    fn from(result: TicTacToeResult) -> (r: Self) {
        match result {
            TicTacToeResult::Victory(player) => match player {
                Player::X => GameResult::Victory,
                Player::O => GameResult::Defeat,
            },
            TicTacToeResult::Draw => GameResult::Draw,
        }
    }
}

impl FromSpecImpl<TicTacToeResult> for GameResult {
    open spec fn obeys_from_spec() -> bool {
        true
    }

    open spec fn from_spec(result: TicTacToeResult) -> Self {
        match result {
            TicTacToeResult::Victory(Player::X) => GameResult::Victory,
            TicTacToeResult::Victory(Player::O) => GameResult::Defeat,
            TicTacToeResult::Draw => GameResult::Draw,
        }
    }
}

/// The other side.
pub open spec fn opponent(p: Player) -> Player {
    match p {
        Player::X => Player::O,
        Player::O => Player::X,
    }
}

/// Whether `c` names a square of the board.
pub open spec fn on_board(c: Coordinate) -> bool {
    0 <= c.x < 3 && 0 <= c.y < 3
}

/// The place of the square `c` in the row-by-row list of squares.
pub open spec fn square_index(c: Coordinate) -> int {
    c.x + c.y * 3
}

/// The side that holds all three of the squares `i`, `j` and `k`, if one does.
pub open spec fn line_winner(b: Seq<BoardCell>, i: int, j: int, k: int) -> Option<Player> {
    if b[i] == b[j] && b[i] == b[k] {
        match b[i] {
            BoardCell::Occupied(p) => Some(p),
            BoardCell::Empty => None,
        }
    } else {
        None
    }
}

/// The first of two findings that is one.
pub open spec fn or_else(a: Option<Player>, b: Option<Player>) -> Option<Player> {
    if a is Some {
        a
    } else {
        b
    }
}

/// The side that holds a full line. Lines are looked at in a fixed order:
/// the rows from the top, the columns from the left, the main diagonal, the
/// other diagonal. The first full line decides.
pub open spec fn winner_of(b: Seq<BoardCell>) -> Option<Player> {
    or_else(
        line_winner(b, 0, 1, 2),
        or_else(
            line_winner(b, 3, 4, 5),
            or_else(
                line_winner(b, 6, 7, 8),
                or_else(
                    line_winner(b, 0, 3, 6),
                    or_else(
                        line_winner(b, 1, 4, 7),
                        or_else(
                            line_winner(b, 2, 5, 8),
                            or_else(line_winner(b, 0, 4, 8), line_winner(b, 2, 4, 6)),
                        ),
                    ),
                ),
            ),
        ),
    )
}

/// Whether no square is empty.
pub open spec fn is_full(b: Seq<BoardCell>) -> bool {
    forall|i: int| 0 <= i < b.len() ==> #[trigger] b[i] != BoardCell::Empty
}

/// How the position stands: won by the side with a full line, drawn when the
/// board is full without one, and open otherwise.
pub open spec fn outcome(b: Seq<BoardCell>) -> Option<TicTacToeResult> {
    match winner_of(b) {
        Some(p) => Some(TicTacToeResult::Victory(p)),
        None => if is_full(b) {
            Some(TicTacToeResult::Draw)
        } else {
            None
        },
    }
}

/// The mark that stands for a square in the text of the board.
pub open spec fn cell_symbol(c: BoardCell) -> char {
    match c {
        BoardCell::Occupied(Player::X) => 'X',
        BoardCell::Occupied(Player::O) => 'O',
        BoardCell::Empty => '.',
    }
}

/// The text of the first `n` squares: one mark per square, with a line break
/// before each row but the first.
pub open spec fn board_text(b: Seq<BoardCell>, n: nat) -> Seq<char>
    decreases n,
{
    if n == 0 {
        seq![]
    } else {
        let before = board_text(b, (n - 1) as nat);
        let idx = n - 1;
        if idx != 0 && idx % 3 == 0 {
            before.push('\n').push(cell_symbol(b[idx]))
        } else {
            before.push(cell_symbol(b[idx]))
        }
    }
}

impl BoardCell {
    /// The caption of the square's button.
    pub fn to_btn_text(&self) -> (r: String)
        ensures
            r@ == (match *self {
                BoardCell::Empty => seq![' '],
                BoardCell::Occupied(Player::X) => seq!['X'],
                BoardCell::Occupied(Player::O) => seq!['O'],
            }),
    {
        proof {
            reveal_strlit(" ");
            reveal_strlit("X");
            reveal_strlit("O");
        }
        let text = match *self {
            BoardCell::Empty => " ",
            BoardCell::Occupied(player) => match player {
                Player::X => "X",
                Player::O => "O",
            },
        };
        let r = String::from_str(text);
        assert(r@ =~= text@);
        assert(text@ =~= (match *self {
            BoardCell::Empty => seq![' '],
            BoardCell::Occupied(Player::X) => seq!['X'],
            BoardCell::Occupied(Player::O) => seq!['O'],
        }));
        r
    }
}

/// A game of tic-tac-toe.
#[derive(Clone, Copy, Debug)]
pub struct TicTacToe {
    game_state: GameState,
    board: [BoardCell; 9],
}

impl TicTacToe {
    /// The nine squares, row by row.
    pub closed spec fn squares(&self) -> Seq<BoardCell> {
        self.board@
    }

    /// Whose turn it is, or how the game ended.
    pub closed spec fn state(&self) -> GameState {
        self.game_state
    }

    /// The board always has nine squares.
    pub proof fn lemma_nine_squares(&self)
        ensures
            self.squares().len() == 9,
    {
    }

    /// The state a game is in after the side `mover` has moved on the square
    /// `idx`.
    pub open spec fn is_move(before: TicTacToe, after: TicTacToe, mover: Player, idx: int) -> bool {
        &&& after.squares() == before.squares().update(idx, BoardCell::Occupied(mover))
        &&& after.state() == (match outcome(after.squares()) {
            Some(result) => GameState::GameEnded(result),
            None => GameState::InProgress(opponent(mover)),
        })
    }

    /// A game with an empty board, `X` to move.
    pub fn new() -> (g: Self)
        ensures
            g.state() == GameState::InProgress(Player::X),
            g.squares() == Seq::new(9, |i: int| BoardCell::Empty),
    {
        let g = Self {
            game_state: GameState::InProgress(Player::X),
            board: [
                BoardCell::Empty,
                BoardCell::Empty,
                BoardCell::Empty,
                BoardCell::Empty,
                BoardCell::Empty,
                BoardCell::Empty,
                BoardCell::Empty,
                BoardCell::Empty,
                BoardCell::Empty,
            ],
        };
        assert(g.board@ =~= Seq::new(9, |i: int| BoardCell::Empty));
        g
    }

    /// Whose turn it is, or how the game ended.
    pub fn game_state(&self) -> (s: GameState)
        ensures
            s == self.state(),
    {
        self.game_state
    }

    /// Hands the move to the other side. A finished game refuses.
    pub fn next_turn(&mut self) -> (r: Result<(), TicTacToeError>)
        ensures
            final(self).squares() == old(self).squares(),
            match old(self).state() {
                GameState::InProgress(p) => r is Ok && final(self).state()
                    == GameState::InProgress(opponent(p)),
                GameState::GameEnded(_) => r == Err::<(), TicTacToeError>(
                    TicTacToeError::GameOver,
                ) && final(self).state() == old(self).state(),
            },
    {
        match self.game_state {
            GameState::InProgress(current_player) => {
                let new_player = match current_player {
                    Player::X => Player::O,
                    Player::O => Player::X,
                };
                self.game_state = GameState::InProgress(new_player);
                Ok(())
            },
            GameState::GameEnded(_) => Err(TicTacToeError::GameOver),
        }
    }

    /// Lets the side to move take the square `coord`. A finished game
    /// refuses every move; a square off the board and an occupied square are
    /// refused too; a refused move changes nothing. After a move the game is
    /// over if the position is decided, and otherwise it is the other side's
    /// turn.
    pub fn play_square(&mut self, coord: Coordinate) -> (r: Result<(), TicTacToeError>)
        ensures
            match old(self).state() {
                GameState::GameEnded(_) => r == Err::<(), TicTacToeError>(TicTacToeError::GameOver),
                GameState::InProgress(mover) => if !on_board(coord) {
                    r == Err::<(), TicTacToeError>(TicTacToeError::OutOfBounds)
                } else if old(self).squares()[square_index(coord)] != BoardCell::Empty {
                    r == Err::<(), TicTacToeError>(TicTacToeError::OccupiedSquare)
                } else {
                    r is Ok && Self::is_move(*old(self), *final(self), mover, square_index(coord))
                },
            },
            r is Err ==> *final(self) == *old(self),
    {
        match self.game_state {
            GameState::InProgress(current_player) => {
                let idx = match TicTacToe::coord_to_idx(coord) {
                    Ok(idx) => idx,
                    Err(e) => {
                        return Err(e);
                    },
                };
                match self.board[idx] {
                    BoardCell::Empty => {
                        self.board[idx] = BoardCell::Occupied(current_player);
                        match self.is_game_over() {
                            Some(game_result) => {
                                self.game_state = GameState::GameEnded(game_result);
                            },
                            None => {
                                let _ = self.next_turn();
                            },
                        }
                        Ok(())
                    },
                    BoardCell::Occupied(_) => Err(TicTacToeError::OccupiedSquare),
                }
            },
            GameState::GameEnded(_) => Err(TicTacToeError::GameOver),
        }
    }

    /// Plays a square picked by chance for the side to move. A game that is
    /// decided is left alone. In an open game squares are drawn until one
    /// accepts the move; after a hundred refusals the first free square of
    /// the board is taken instead. So an open game is always exactly one
    /// move further: a free square now holds the mark of the side that was
    /// to move, and the game has ended or the turn has passed on.
    pub fn play_random_square(&mut self)
        ensures
            old(self).state() is InProgress && outcome(old(self).squares()) is None
                ==> exists|idx: int|
                0 <= idx < 9 && old(self).squares()[idx] == BoardCell::Empty && #[trigger] Self::is_move(
                    *old(self),
                    *final(self),
                    old(self).state()->InProgress_0,
                    idx,
                ),
            !(old(self).state() is InProgress && outcome(old(self).squares()) is None)
                ==> *final(self) == *old(self),
    {
        if self.is_game_over().is_some() {
            return ;
        }
        match self.game_state {
            GameState::GameEnded(_) => {
                return ;
            },
            GameState::InProgress(_) => {},
        }
        let mut successfully_played_a_square = false;
        let mut tries: u32 = 0;
        while !successfully_played_a_square && tries < 100
            invariant
                tries <= 100,
                old(self).state() is InProgress,
                outcome(old(self).squares()) is None,
                !successfully_played_a_square ==> *self == *old(self),
                successfully_played_a_square ==> exists|idx: int|
                    0 <= idx < 9 && old(self).squares()[idx] == BoardCell::Empty
                        && #[trigger] Self::is_move(
                        *old(self),
                        *self,
                        old(self).state()->InProgress_0,
                        idx,
                    ),
            decreases 100 - tries,
        {
            let x = random_in_range(0, 3);
            let y = random_in_range(0, 3);
            let rand_coord = Coordinate::new(x as i32, y as i32);
            let played = self.play_square(rand_coord);
            successfully_played_a_square = played.is_ok();
            proof {
                if successfully_played_a_square {
                    assert(Self::is_move(
                        *old(self),
                        *self,
                        old(self).state()->InProgress_0,
                        square_index(rand_coord),
                    ));
                }
            }
            tries += 1;
        }
        if successfully_played_a_square {
            return ;
        }
        let mut idx: usize = 0;
        while idx < 9
            invariant
                idx <= 9,
                *self == *old(self),
                old(self).state() is InProgress,
                outcome(old(self).squares()) is None,
                forall|k: int| 0 <= k < idx ==> self.squares()[k] != BoardCell::Empty,
            decreases 9 - idx,
        {
            if same_cell(self.board[idx], BoardCell::Empty) {
                let free = Coordinate::new((idx % 3) as i32, (idx / 3) as i32);
                assert(square_index(free) == idx);
                let _ = self.play_square(free);
                assert(Self::is_move(
                    *old(self),
                    *self,
                    old(self).state()->InProgress_0,
                    idx as int,
                ));
                return ;
            }
            idx += 1;
        }
        assert(is_full(self.squares()));
    }

    fn check_line(&self, i: usize, j: usize, k: usize) -> (r: Option<Player>)
        requires
            i < 9,
            j < 9,
            k < 9,
        ensures
            r == line_winner(self.squares(), i as int, j as int, k as int),
    {
        TicTacToe::check_winning_trio([self.board[i], self.board[j], self.board[k]])
    }

    /// How the position stands: the side with a full line has won; a full
    /// board without one is a draw; otherwise the game is open.
    pub fn is_game_over(&self) -> (r: Option<TicTacToeResult>)
        ensures
            r == outcome(self.squares()),
    {
        let mut y: usize = 0;
        while y < 3
            invariant
                y <= 3,
                y >= 1 ==> line_winner(self.squares(), 0, 1, 2) is None,
                y >= 2 ==> line_winner(self.squares(), 3, 4, 5) is None,
                y >= 3 ==> line_winner(self.squares(), 6, 7, 8) is None,
            decreases 3 - y,
        {
            match self.check_line(y * 3, y * 3 + 1, y * 3 + 2) {
                Some(winner) => {
                    return Some(TicTacToeResult::Victory(winner));
                },
                None => {},
            }
            y += 1;
        }
        let mut x: usize = 0;
        while x < 3
            invariant
                x <= 3,
                line_winner(self.squares(), 0, 1, 2) is None,
                line_winner(self.squares(), 3, 4, 5) is None,
                line_winner(self.squares(), 6, 7, 8) is None,
                x >= 1 ==> line_winner(self.squares(), 0, 3, 6) is None,
                x >= 2 ==> line_winner(self.squares(), 1, 4, 7) is None,
                x >= 3 ==> line_winner(self.squares(), 2, 5, 8) is None,
            decreases 3 - x,
        {
            match self.check_line(x, x + 3, x + 6) {
                Some(winner) => {
                    return Some(TicTacToeResult::Victory(winner));
                },
                None => {},
            }
            x += 1;
        }
        match self.check_line(0, 4, 8) {
            Some(winner) => {
                return Some(TicTacToeResult::Victory(winner));
            },
            None => {},
        }
        match self.check_line(2, 4, 6) {
            Some(winner) => {
                return Some(TicTacToeResult::Victory(winner));
            },
            None => {},
        }
        let mut i: usize = 0;
        while i < 9
            invariant
                i <= 9,
                self.squares().len() == 9,
                winner_of(self.squares()) is None,
                forall|j: int| 0 <= j < i ==> #[trigger] self.squares()[j] != BoardCell::Empty,
            decreases 9 - i,
        {
            match self.board[i] {
                BoardCell::Empty => {
                    assert(self.squares()[i as int] == BoardCell::Empty);
                    return None;
                },
                BoardCell::Occupied(_) => {},
            }
            i += 1;
        }
        Some(TicTacToeResult::Draw)
    }

    /// The square at column `x`, row `y`, or `OutOfBounds` where the board
    /// has no such square.
    pub fn get_cell(&self, x: i32, y: i32) -> (r: Result<BoardCell, TicTacToeError>)
        ensures
            on_board(Coordinate { x, y }) ==> r == Ok::<BoardCell, TicTacToeError>(
                self.squares()[square_index(Coordinate { x, y })],
            ),
            !on_board(Coordinate { x, y }) ==> r == Err::<BoardCell, TicTacToeError>(
                TicTacToeError::OutOfBounds,
            ),
    {
        match TicTacToe::coord_to_idx(Coordinate::new(x, y)) {
            Ok(idx) => Ok(self.board[idx]),
            Err(e) => Err(e),
        }
    }

    /// The place of the square `coord` in the row-by-row list of squares, or
    /// `OutOfBounds` where the board has no such square.
    pub fn coord_to_idx(coord: Coordinate) -> (r: Result<usize, TicTacToeError>)
        ensures
            on_board(coord) ==> r == Ok::<usize, TicTacToeError>(square_index(coord) as usize),
            !on_board(coord) ==> r == Err::<usize, TicTacToeError>(TicTacToeError::OutOfBounds),
            r is Ok ==> r->Ok_0 < 9,
    {
        if coord.x >= 0 && coord.x < 3 && coord.y >= 0 && coord.y < 3 {
            Ok((coord.x + (coord.y * 3)) as usize)
        } else {
            Err(TicTacToeError::OutOfBounds)
        }
    }

    /// The side that holds all three squares, if one does.
    pub fn check_winning_trio(cells: [BoardCell; 3]) -> (r: Option<Player>)
        ensures
            r == line_winner(cells@, 0, 1, 2),
    {
        let all_eq = same_cell(cells[0], cells[1]) && same_cell(cells[0], cells[2]);
        if !all_eq {
            return None;
        }
        match cells[0] {
            BoardCell::Occupied(winner) => Some(winner),
            BoardCell::Empty => None,
        }
    }

    /// The board as text: three lines of three marks, `X`, `O` or `.`.
    pub fn get_as_string(&self) -> (result: String)
        ensures
            result@ == board_text(self.squares(), 9),
    {
        let mut result = String::new();
        let mut idx: usize = 0;
        while idx < 9
            invariant
                idx <= 9,
                result@ == board_text(self.squares(), idx as nat),
            decreases 9 - idx,
        {
            proof {
                reveal_strlit("\n");
                reveal_strlit("X");
                reveal_strlit("O");
                reveal_strlit(".");
            }
            if idx != 0 && idx % 3 == 0 {
                result.append("\n");
                assert("\n"@ =~= seq!['\n']);
            }
            let symbol = match self.board[idx] {
                BoardCell::Occupied(player) => match player {
                    Player::X => "X",
                    Player::O => "O",
                },
                BoardCell::Empty => ".",
            };
            assert(symbol@ =~= seq![cell_symbol(self.squares()[idx as int])]);
            result.append(symbol);
            assert(result@ =~= board_text(self.squares(), (idx + 1) as nat));
            idx += 1;
        }
        result
    }

    /// Whether the game is open and it is `O` who moves.
    pub fn is_o_turn(&self) -> (r: bool)
        ensures
            r == (self.state() == GameState::InProgress(Player::O)),
    {
        match self.game_state {
            GameState::InProgress(Player::O) => true,
            _ => false,
        }
    }

    /// The game after the side to move took the square `coord`; this game
    /// stays as it is. A move that `play_square` refuses is refused here for
    /// the same reason.
    pub fn with_next_move(&self, coord: Coordinate) -> (r: Result<Self, TicTacToeError>)
        ensures
            match self.state() {
                GameState::GameEnded(_) => r == Err::<Self, TicTacToeError>(TicTacToeError::GameOver),
                GameState::InProgress(mover) => if !on_board(coord) {
                    r == Err::<Self, TicTacToeError>(TicTacToeError::OutOfBounds)
                } else if self.squares()[square_index(coord)] != BoardCell::Empty {
                    r == Err::<Self, TicTacToeError>(TicTacToeError::OccupiedSquare)
                } else {
                    r is Ok && Self::is_move(*self, r->Ok_0, mover, square_index(coord))
                },
            },
    {
        let mut new_board = *self;
        match new_board.play_square(coord) {
            Ok(()) => Ok(new_board),
            Err(e) => Err(e),
        }
    }
}

fn same_cell(a: BoardCell, b: BoardCell) -> (r: bool)
    ensures
        r == (a == b),
{
    match (a, b) {
        (BoardCell::Empty, BoardCell::Empty) => true,
        (BoardCell::Occupied(Player::X), BoardCell::Occupied(Player::X)) => true,
        (BoardCell::Occupied(Player::O), BoardCell::Occupied(Player::O)) => true,
        _ => false,
    }
}

} // verus!
