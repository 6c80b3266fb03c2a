use twelve_knights_vigil::coordinate::Coordinate;
use twelve_knights_vigil::tic_tac_toe::{
    BoardCell, GameResult, GameState, Player, TicTacToe, TicTacToeError, TicTacToeResult,
};

#[test]
fn test_empty_board() {
    let game = TicTacToe::new();
    let expected = "...\n...\n...";
    assert_eq!(game.get_as_string(), expected);
}

#[test]
fn test_some_moves() -> Result<(), TicTacToeError> {
    let mut game = TicTacToe::new();
    game.play_square(Coordinate::new(1, 1))?;
    game.play_square(Coordinate::new(0, 0))?;
    game.play_square(Coordinate::new(2, 1))?;

    let expected = "O..\n.XX\n...";
    assert_eq!(game.get_as_string(), expected);
    Ok(())
}

#[test]
fn test_invalid_moves() -> Result<(), TicTacToeError> {
    let mut game = TicTacToe::new();

    let out_of_bounds = game.play_square(Coordinate::new(3, -1));
    assert_eq!(out_of_bounds, Err(TicTacToeError::OutOfBounds));

    game.play_square(Coordinate::new(1, 1))?;
    let occupied = game.play_square(Coordinate::new(1, 1));

    assert_eq!(occupied, Err(TicTacToeError::OccupiedSquare));

    Ok(())
}

#[test]
fn test_game_finished() -> Result<(), TicTacToeError> {
    let mut game = TicTacToe::new();

    (0..2).try_for_each(|x| {
        game.play_square(Coordinate::new(x, 0))?;
        game.play_square(Coordinate::new(x, 1))?;
        Ok(())
    })?;

    game.play_square(Coordinate::new(2, 0))?;

    assert_eq!(
        game.game_state(),
        GameState::GameEnded(TicTacToeResult::Victory(Player::X))
    );

    let game_over_error = game.play_square(Coordinate::new(2, 2));
    assert_eq!(game_over_error, Err(TicTacToeError::GameOver));

    Ok(())
}

#[test]
fn test_column_victory() -> Result<(), TicTacToeError> {
    let mut game = TicTacToe::new();

    (0..2).try_for_each(|y| {
        game.play_square(Coordinate::new(0, y))?;
        game.play_square(Coordinate::new(1, y))?;
        Ok(())
    })?;

    game.play_square(Coordinate::new(0, 2))?;

    assert_eq!(
        game.game_state(),
        GameState::GameEnded(TicTacToeResult::Victory(Player::X))
    );

    Ok(())
}

#[test]
fn test_o_victory() -> Result<(), TicTacToeError> {
    let mut game = TicTacToe::new();

    (0..2).try_for_each(|y| {
        game.play_square(Coordinate::new(0, y))?;
        game.play_square(Coordinate::new(1, y))?;
        Ok(())
    })?;

    game.play_square(Coordinate::new(2, 2))?;
    game.play_square(Coordinate::new(1, 2))?;

    assert_eq!(
        game.game_state(),
        GameState::GameEnded(TicTacToeResult::Victory(Player::O))
    );

    Ok(())
}

#[test]
fn test_diagonal_victory() -> Result<(), TicTacToeError> {
    let mut game = TicTacToe::new();

    game.play_square(Coordinate::new(0, 0))?;
    game.play_square(Coordinate::new(1, 0))?;
    game.play_square(Coordinate::new(1, 1))?;
    game.play_square(Coordinate::new(2, 0))?;
    game.play_square(Coordinate::new(2, 2))?;

    assert_eq!(
        game.game_state(),
        GameState::GameEnded(TicTacToeResult::Victory(Player::X))
    );

    Ok(())
}

#[test]
fn test_reverse_diagonal_victory() -> Result<(), TicTacToeError> {
    let mut game = TicTacToe::new();

    game.play_square(Coordinate::new(2, 0))?;
    game.play_square(Coordinate::new(1, 0))?;
    game.play_square(Coordinate::new(1, 1))?;
    game.play_square(Coordinate::new(0, 0))?;
    game.play_square(Coordinate::new(0, 2))?;

    assert_eq!(
        game.game_state(),
        GameState::GameEnded(TicTacToeResult::Victory(Player::X))
    );

    Ok(())
}

#[test]
fn test_draw() -> Result<(), TicTacToeError> {
    let mut game = TicTacToe::new();

    (0..3).try_for_each(|y| {
        match y {
            0 => {
                game.play_square(Coordinate::new(0, y))?;
                game.play_square(Coordinate::new(2, y))?;
                game.play_square(Coordinate::new(1, y))?;
            }
            1 => {
                game.play_square(Coordinate::new(1, 2))?;
                game.play_square(Coordinate::new(0, 2))?;
                game.play_square(Coordinate::new(2, 2))?;
            }

            _ => {
                game.play_square(Coordinate::new(1, 1))?;
                game.play_square(Coordinate::new(0, 1))?;
                game.play_square(Coordinate::new(2, 1))?;
            }
        }
        Ok(())
    })?;

    assert_eq!(
        game.game_state(),
        GameState::GameEnded(TicTacToeResult::Draw),
        "This game state should be a draw. \n{}",
        game.get_as_string()
    );
    Ok(())
}

#[test]
fn a_new_game_waits_for_x() {
    let game = TicTacToe::new();
    assert_eq!(game.game_state(), GameState::InProgress(Player::X));
    assert!(!game.is_o_turn());
    assert_eq!(game.is_game_over(), None);
}

#[test]
fn turns_alternate_after_each_move() {
    let mut game = TicTacToe::new();
    game.play_square(Coordinate::new(0, 0)).unwrap();
    assert_eq!(game.game_state(), GameState::InProgress(Player::O));
    assert!(game.is_o_turn());
    game.play_square(Coordinate::new(1, 0)).unwrap();
    assert_eq!(game.game_state(), GameState::InProgress(Player::X));
}

#[test]
fn cells_are_read_back_by_column_and_row() {
    let mut game = TicTacToe::new();
    game.play_square(Coordinate::new(2, 1)).unwrap();
    assert_eq!(game.get_cell(2, 1), Ok(BoardCell::Occupied(Player::X)));
    assert_eq!(game.get_cell(1, 2), Ok(BoardCell::Empty));
    assert_eq!(game.get_cell(3, 0), Err(TicTacToeError::OutOfBounds));
    assert_eq!(game.get_cell(0, -1), Err(TicTacToeError::OutOfBounds));
}

#[test]
fn squares_are_numbered_row_by_row() {
    assert_eq!(TicTacToe::coord_to_idx(Coordinate::new(0, 0)), Ok(0));
    assert_eq!(TicTacToe::coord_to_idx(Coordinate::new(2, 0)), Ok(2));
    assert_eq!(TicTacToe::coord_to_idx(Coordinate::new(1, 2)), Ok(7));
    assert_eq!(
        TicTacToe::coord_to_idx(Coordinate::new(-1, 0)),
        Err(TicTacToeError::OutOfBounds)
    );
    assert_eq!(
        TicTacToe::coord_to_idx(Coordinate::new(0, 3)),
        Err(TicTacToeError::OutOfBounds)
    );
}

#[test]
fn a_trio_wins_only_when_one_player_holds_it() {
    let x = BoardCell::Occupied(Player::X);
    let o = BoardCell::Occupied(Player::O);
    let e = BoardCell::Empty;
    assert_eq!(TicTacToe::check_winning_trio([x, x, x]), Some(Player::X));
    assert_eq!(TicTacToe::check_winning_trio([o, o, o]), Some(Player::O));
    assert_eq!(TicTacToe::check_winning_trio([x, o, x]), None);
    assert_eq!(TicTacToe::check_winning_trio([e, e, e]), None);
    assert_eq!(TicTacToe::check_winning_trio([x, x, e]), None);
}

#[test]
fn a_trial_move_leaves_the_game_untouched() {
    let game = TicTacToe::new();
    let next = game.with_next_move(Coordinate::new(1, 1)).unwrap();
    assert_eq!(game.get_as_string(), "...\n...\n...");
    assert_eq!(next.get_as_string(), "...\n.X.\n...");
    assert_eq!(next.game_state(), GameState::InProgress(Player::O));
    assert_eq!(
        next.with_next_move(Coordinate::new(1, 1)).unwrap_err(),
        TicTacToeError::OccupiedSquare
    );
}

#[test]
fn a_random_move_fills_exactly_one_free_square() {
    for _ in 0..50 {
        let mut game = TicTacToe::new();
        game.play_square(Coordinate::new(1, 1)).unwrap();
        let before = game.get_as_string();
        game.play_random_square();
        let after = game.get_as_string();
        let changed: Vec<(char, char)> = before
            .chars()
            .zip(after.chars())
            .filter(|(a, b)| a != b)
            .collect();
        assert_eq!(changed, vec![('.', 'O')]);
        assert_eq!(game.game_state(), GameState::InProgress(Player::X));
    }
}

#[test]
fn a_random_move_on_a_finished_game_changes_nothing() {
    let mut game = TicTacToe::new();
    for (x, y) in [(0, 0), (0, 1), (1, 0), (1, 1), (2, 0)] {
        game.play_square(Coordinate::new(x, y)).unwrap();
    }
    let before = game.get_as_string();
    game.play_random_square();
    assert_eq!(game.get_as_string(), before);
    assert_eq!(
        game.game_state(),
        GameState::GameEnded(TicTacToeResult::Victory(Player::X))
    );
}

#[test]
fn button_texts_show_the_player() {
    assert_eq!(BoardCell::Empty.to_btn_text(), " ");
    assert_eq!(BoardCell::Occupied(Player::X).to_btn_text(), "X");
    assert_eq!(BoardCell::Occupied(Player::O).to_btn_text(), "O");
}

#[test]
fn results_are_told_from_the_side_of_x() {
    assert_eq!(
        GameResult::from(TicTacToeResult::Victory(Player::X)),
        GameResult::Victory
    );
    assert_eq!(
        GameResult::from(TicTacToeResult::Victory(Player::O)),
        GameResult::Defeat
    );
    assert_eq!(GameResult::from(TicTacToeResult::Draw), GameResult::Draw);
}

#[test]
fn a_random_move_always_finds_the_last_free_square() {
    for _ in 0..200 {
        let mut game = TicTacToe::new();
        for (x, y) in [
            (0, 0),
            (1, 0),
            (2, 0),
            (1, 1),
            (0, 1),
            (2, 1),
            (1, 2),
            (0, 2),
        ] {
            game.play_square(Coordinate::new(x, y)).unwrap();
        }
        assert_eq!(game.get_as_string(), "XOX\nXOO\nOX.");
        assert_eq!(game.game_state(), GameState::InProgress(Player::X));
        game.play_random_square();
        assert_eq!(game.get_as_string(), "XOX\nXOO\nOXX");
        assert_eq!(
            game.game_state(),
            GameState::GameEnded(TicTacToeResult::Draw)
        );
    }
}
