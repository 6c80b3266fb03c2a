//! The power bar of a tower: a percentage that games fill and time drains.

use crate::tic_tac_toe::outcome;
use crate::tic_tac_toe::BoardCell;
use crate::tic_tac_toe::GameState;
use crate::tic_tac_toe::Player;
use crate::tic_tac_toe::TicTacToe;
use crate::tic_tac_toe::TicTacToeResult;
use vstd::prelude::*;

verus! {

/// A level between 0 and 100.
#[derive(Clone, Copy, Debug, PartialEq, Eq, Structural)]
pub struct PowerBar(u32);

/// `v`, but no more than a hundred.
pub open spec fn capped(v: int) -> int {
    if v > 100 {
        100
    } else {
        v
    }
}

impl PowerBar {
    /// The level.
    pub closed spec fn level(&self) -> nat {
        self.0 as nat
    }

    /// Two bars with the same level are the same.
    pub proof fn lemma_same(a: PowerBar, b: PowerBar)
        requires
            a.level() == b.level(),
        ensures
            a == b,
    {
    }

    /// An empty bar.
    pub fn new() -> (b: Self)
        ensures
            b.level() == 0,
    {
        Self(0)
    }

    /// The level.
    pub fn get_actual(&self) -> (r: u32)
        ensures
            r == self.level(),
    {
        self.0
    }

    /// Raises the level by `amount`, to a hundred at most.
    pub fn increase(&mut self, amount: u32)
        ensures
            final(self).level() == capped(old(self).level() + amount),
    {
        let sum = self.0.saturating_add(amount);
        self.0 = if sum > 100 {
            100
        } else {
            sum
        };
    }

    /// Lowers the level by `amount`, to nothing at most. A level above a
    /// hundred comes down to a hundred first.
    pub fn decrease(&mut self, amount: u32)
        ensures
            final(self).level() == capped(
                if old(self).level() >= amount {
                    old(self).level() - amount
                } else {
                    0
                },
            ),
    {
        let rest = self.0.saturating_sub(amount);
        self.0 = if rest > 100 {
            100
        } else {
            rest
        };
    }
}

/// Drains one point from every bar.
pub fn deplete_power_bars(bars: &mut Vec<PowerBar>)
    ensures
        final(bars)@.len() == old(bars)@.len(),
        forall|i: int|
            0 <= i < old(bars)@.len() ==> (#[trigger] final(bars)@[i]).level() == capped(
                if old(bars)@[i].level() >= 1 {
                    old(bars)@[i].level() - 1
                } else {
                    0
                },
            ),
{
    let mut i: usize = 0;
    while i < bars.len()
        invariant
            i <= bars@.len(),
            bars@.len() == old(bars)@.len(),
            forall|j: int|
                0 <= j < i ==> (#[trigger] bars@[j]).level() == capped(
                    if old(bars)@[j].level() >= 1 {
                        old(bars)@[j].level() - 1
                    } else {
                        0
                    },
                ),
            forall|j: int| i <= j < bars@.len() ==> bars@[j] == old(bars)@[j],
        decreases bars@.len() - i,
    {
        let mut bar = bars[i];
        bar.decrease(1);
        bars.set(i, bar);
        i += 1;
    }
}


/// How many rounds of moves by chance, one move for each side, a new game
/// starts with: none for a bar above 80, one from 40 on, three below.
pub open spec fn opening_rounds(level: nat) -> nat {
    if 81 <= level <= 100 {
        0
    } else if 40 <= level <= 80 {
        1
    } else {
        3
    }
}

/// How many of the first `n` squares are taken.
pub open spec fn taken_squares(b: Seq<BoardCell>, n: nat) -> nat
    decreases n,
{
    if n == 0 {
        0
    } else {
        taken_squares(b, (n - 1) as nat) + if b[n - 1] == BoardCell::Empty {
            0nat
        } else {
            1nat
        }
    }
}

proof fn lemma_one_more_taken(b: Seq<BoardCell>, idx: int, c: BoardCell, n: nat)
    requires
        0 <= idx < b.len(),
        n <= b.len(),
    ensures
        taken_squares(b.update(idx, c), n) <= taken_squares(b, n) + 1,
        idx >= n ==> taken_squares(b.update(idx, c), n) == taken_squares(b, n),
        idx < n && b[idx] == BoardCell::Empty && c != BoardCell::Empty ==> taken_squares(
            b.update(idx, c),
            n,
        ) == taken_squares(b, n) + 1,
    decreases n,
{
    if n > 0 {
        lemma_one_more_taken(b, idx, c, (n - 1) as nat);
    }
}

proof fn lemma_none_taken(b: Seq<BoardCell>, n: nat)
    requires
        n <= b.len(),
        forall|i: int| 0 <= i < b.len() ==> b[i] == BoardCell::Empty,
    ensures
        taken_squares(b, n) == 0,
    decreases n,
{
    if n > 0 {
        lemma_none_taken(b, (n - 1) as nat);
    }
}

/// Whether the game is open: nobody has won, a square is free, and a side
/// is to move.
pub open spec fn is_open(game: TicTacToe) -> bool {
    game.state() is InProgress && outcome(game.squares()) is None
}

/// Lets chance move once. In an open game the side to move takes a free
/// square, so one more square is taken; any other game stays as it is.
fn chance_move(game: &mut TicTacToe)
    ensures
        is_open(*old(game)) ==> taken_squares(final(game).squares(), 9) == taken_squares(
            old(game).squares(),
            9,
        ) + 1,
        is_open(*old(game)) ==> exists|idx: int|
            0 <= idx < 9 && old(game).squares()[idx] == BoardCell::Empty
                && #[trigger] TicTacToe::is_move(
                *old(game),
                *final(game),
                old(game).state()->InProgress_0,
                idx,
            ),
        !is_open(*old(game)) ==> *final(game) == *old(game),
{
    let ghost before = *game;
    game.play_random_square();
    proof {
        before.lemma_nine_squares();
        if is_open(before) {
            let idx = choose|idx: int|
                0 <= idx < 9 && before.squares()[idx] == BoardCell::Empty
                    && #[trigger] TicTacToe::is_move(
                    before,
                    *game,
                    before.state()->InProgress_0,
                    idx,
                );
            lemma_one_more_taken(
                before.squares(),
                idx,
                BoardCell::Occupied(before.state()->InProgress_0),
                9,
            );
        }
    }
}

/// A new game for a tower whose bar stands at `level`: an open position
/// after the opening rounds that the level asks for, each a move by chance
/// for either side. An opening that decides the game is thrown away and
/// tried again, up to a hundred times; after that the board stays empty.
pub fn new_minigame(level: u32) -> (game: TicTacToe)
    ensures
        outcome(game.squares()) is None,
        taken_squares(game.squares(), 9) <= 2 * opening_rounds(level as nat),
{
    let rounds: u32 = if 81 <= level && level <= 100 {
        0
    } else if 40 <= level && level <= 80 {
        1
    } else {
        3
    };
    let mut tries: u32 = 0;
    while tries < 100
        invariant
            rounds == opening_rounds(level as nat),
        decreases 100 - tries,
    {
        let mut game = TicTacToe::new();
        proof {
            lemma_none_taken(game.squares(), 9);
        }
        let mut round: u32 = 0;
        while round < rounds
            invariant
                round <= rounds,
                rounds <= 3,
                taken_squares(game.squares(), 9) <= 2 * round,
            decreases rounds - round,
        {
            chance_move(&mut game);
            chance_move(&mut game);
            round += 1;
        }
        if game.is_game_over().is_none() {
            return game;
        }
        tries += 1;
    }
    let game = TicTacToe::new();
    proof {
        lemma_none_taken(game.squares(), 9);
        assert(game.squares()[0] == BoardCell::Empty);
    }
    game
}

/// What a finished game does to the bar of its tower: a win for `X` is
/// worth 25 points, anything else nothing.
pub open spec fn boosted(level: nat, result: TicTacToeResult) -> int {
    if result == TicTacToeResult::Victory(Player::X) {
        capped(level as int + 25)
    } else {
        level as int
    }
}

/// Rewards a finished game and sets up the next one. While the game is open
/// nothing happens. Once it is decided, a win for `X` raises the bar by 25,
/// and a new game takes its place, opened as the bar's new level asks.
pub fn normal_knight_minigame_power_boost(bar: &mut PowerBar, game: &mut TicTacToe)
    ensures
        match outcome(old(game).squares()) {
            None => *final(bar) == *old(bar) && *final(game) == *old(game),
            Some(result) => {
                &&& final(bar).level() == boosted(old(bar).level(), result)
                &&& outcome(final(game).squares()) is None
                &&& taken_squares(final(game).squares(), 9) <= 2 * opening_rounds(
                    final(bar).level(),
                )
            },
        },
{
    match game.is_game_over() {
        Some(result) => {
            match result {
                TicTacToeResult::Victory(player) => match player {
                    Player::X => {
                        bar.increase(25);
                    },
                    Player::O => {},
                },
                TicTacToeResult::Draw => {},
            }
            *game = new_minigame(bar.get_actual());
        },
        None => {},
    }
}


/// What chance does to a game when it answers for `O`: in an open game in
/// which `O` is to move, `O` has taken a free square, and the game has
/// ended or the turn has passed to `X`; any other game is as it was.
pub open spec fn answered(before: TicTacToe, after: TicTacToe) -> bool {
    if before.state() == GameState::InProgress(Player::O) && outcome(before.squares()) is None {
        exists|idx: int|
            0 <= idx < 9 && before.squares()[idx] == BoardCell::Empty
                && #[trigger] TicTacToe::is_move(before, after, Player::O, idx)
    } else {
        after == before
    }
}

/// Lets chance answer for `O` in every game in which it is the turn of
/// `O`: there `O` takes a free square. Every other game stays as it is.
pub fn normal_knight_ai_turn(games: &mut Vec<TicTacToe>)
    ensures
        final(games)@.len() == old(games)@.len(),
        forall|i: int|
            0 <= i < old(games)@.len() ==> answered(old(games)@[i], #[trigger] final(games)@[i]),
{
    let mut i: usize = 0;
    while i < games.len()
        invariant
            i <= games@.len(),
            games@.len() == old(games)@.len(),
            forall|k: int| 0 <= k < i ==> answered(old(games)@[k], #[trigger] games@[k]),
            forall|k: int| i <= k < games@.len() ==> games@[k] == old(games)@[k],
        decreases games@.len() - i,
    {
        let mut game = games[i];
        if game.is_o_turn() {
            game.play_random_square();
            games.set(i, game);
        }
        i += 1;
    }
}

} // verus!
