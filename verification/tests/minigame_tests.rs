use twelve_knights_vigil::coordinate::Coordinate;
use twelve_knights_vigil::power_bar::{
    deplete_power_bars, new_minigame, normal_knight_minigame_power_boost, PowerBar,
};
use twelve_knights_vigil::smoothie_mix::{
    CookingAction, GameState, Ingredient, SmoothieMix, SmoothieMove, Technique,
};
use twelve_knights_vigil::tic_tac_toe::{GameResult, TicTacToe};

fn taken(game: &TicTacToe) -> usize {
    game.get_as_string().chars().filter(|c| *c == 'X' || *c == 'O').count()
}

fn won_by_x() -> TicTacToe {
    let mut game = TicTacToe::new();
    for (x, y) in [(0, 0), (0, 1), (1, 0), (1, 1), (2, 0)] {
        game.play_square(Coordinate::new(x, y)).unwrap();
    }
    game
}

fn won_by_o() -> TicTacToe {
    let mut game = TicTacToe::new();
    for (x, y) in [(0, 0), (0, 1), (1, 0), (1, 1), (2, 2), (2, 1)] {
        game.play_square(Coordinate::new(x, y)).unwrap();
    }
    game
}

#[test]
fn a_power_bar_stays_between_nothing_and_a_hundred() {
    let mut bar = PowerBar::new();
    assert_eq!(bar.get_actual(), 0);
    bar.decrease(5);
    assert_eq!(bar.get_actual(), 0);
    bar.increase(60);
    assert_eq!(bar.get_actual(), 60);
    bar.increase(60);
    assert_eq!(bar.get_actual(), 100);
    bar.increase(u32::MAX);
    assert_eq!(bar.get_actual(), 100);
    bar.decrease(30);
    assert_eq!(bar.get_actual(), 70);
}

#[test]
fn time_drains_one_point_from_every_bar() {
    let mut full = PowerBar::new();
    full.increase(100);
    let mut bars = vec![PowerBar::new(), full];
    deplete_power_bars(&mut bars);
    assert_eq!(bars[0].get_actual(), 0);
    assert_eq!(bars[1].get_actual(), 99);
}

#[test]
fn an_open_game_earns_nothing_and_stays() {
    let mut bar = PowerBar::new();
    let mut game = TicTacToe::new();
    game.play_square(Coordinate::new(1, 1)).unwrap();
    let before = game.get_as_string();
    normal_knight_minigame_power_boost(&mut bar, &mut game);
    assert_eq!(bar.get_actual(), 0);
    assert_eq!(game.get_as_string(), before);
}

#[test]
fn a_win_for_x_is_worth_twenty_five_points_and_a_new_game() {
    for _ in 0..50 {
        let mut bar = PowerBar::new();
        bar.increase(30);
        let mut game = won_by_x();
        normal_knight_minigame_power_boost(&mut bar, &mut game);
        assert_eq!(bar.get_actual(), 55);
        assert!(game.is_game_over().is_none());
        assert!(taken(&game) <= 2);
    }
}

#[test]
fn a_win_for_o_is_worth_nothing_but_a_new_game() {
    for _ in 0..50 {
        let mut bar = PowerBar::new();
        bar.increase(30);
        let mut game = won_by_o();
        normal_knight_minigame_power_boost(&mut bar, &mut game);
        assert_eq!(bar.get_actual(), 30);
        assert!(game.is_game_over().is_none());
        assert!(taken(&game) <= 6);
    }
}

#[test]
fn a_strong_tower_gets_an_empty_board() {
    let mut bar = PowerBar::new();
    bar.increase(60);
    let mut game = won_by_x();
    normal_knight_minigame_power_boost(&mut bar, &mut game);
    assert_eq!(bar.get_actual(), 85);
    assert_eq!(game.get_as_string(), "...\n...\n...");
    assert_eq!(new_minigame(81).get_as_string(), "...\n...\n...");
    assert_eq!(new_minigame(100).get_as_string(), "...\n...\n...");
}

#[test]
fn the_opening_of_a_new_game_is_drawn_by_chance() {
    let mut boards = std::collections::BTreeSet::new();
    for _ in 0..200 {
        let game = new_minigame(50);
        assert!(game.is_game_over().is_none());
        assert_eq!(taken(&game), 2);
        boards.insert(game.get_as_string());
    }
    assert!(boards.len() > 1);
    for _ in 0..50 {
        let game = new_minigame(0);
        assert!(game.is_game_over().is_none());
        assert!(taken(&game) <= 6);
    }
}

#[test]
fn ingredients_and_techniques_are_listed_with_their_names() {
    let names: Vec<&str> = Ingredient::all().iter().map(|i| i.display_name()).collect();
    assert_eq!(names, vec!["Protein Powder", "Banana", "Oats"]);
    let names: Vec<&str> = Technique::all().iter().map(|t| t.display_name()).collect();
    assert_eq!(names, vec!["Blend", "Shake", "Stir"]);
}

#[test]
fn a_step_is_written_as_a_line_of_the_recipe() {
    let line = |action: CookingAction, count| action.to_recipe_line(count);
    assert_eq!(
        line(CookingAction::AddIngredient(Ingredient::ProteinPowder), 1),
        "Add 1 tablespoons of Protein Powder"
    );
    assert_eq!(
        line(CookingAction::AddIngredient(Ingredient::Banana), 12),
        "Add 12 bananas"
    );
    assert_eq!(
        line(CookingAction::AddIngredient(Ingredient::Oats), 3),
        "Add 3 cups of oats"
    );
    assert_eq!(
        line(CookingAction::UseTechnique(Technique::Blend), 2),
        "Run Blender 2 times"
    );
    assert_eq!(
        line(CookingAction::UseTechnique(Technique::Shake), 100),
        "Shake Firmly 100 times"
    );
    assert_eq!(
        line(CookingAction::UseTechnique(Technique::Stir), 0),
        "Stir 0 times"
    );
}

#[test]
fn a_recipe_has_as_many_steps_as_asked_for() {
    assert!(CookingAction::generate_random_recipe(0).is_empty());
    assert_eq!(CookingAction::generate_random_recipe(7).len(), 7);
}

#[test]
fn recipes_are_drawn_by_chance() {
    let mut seen = std::collections::BTreeSet::new();
    for _ in 0..300 {
        for action in CookingAction::generate_random_recipe(3) {
            seen.insert(action.to_recipe_line(1));
        }
    }
    assert_eq!(seen.len(), 6);
}

#[test]
fn a_new_game_asks_for_three_steps() {
    let game = SmoothieMix::new();
    assert_eq!(game.game_state(), GameState::Mixing);
    assert_eq!(game.recipe().len(), 3);
    assert!(game.current_mix().is_empty());
    assert_eq!(game.get_game_result(), None);
    assert_eq!(game.get_recipe_text().lines().count(), 3);
}

#[test]
fn the_recipe_is_written_line_by_line() {
    let game = SmoothieMix::with_recipe(vec![
        CookingAction::AddIngredient(Ingredient::Banana),
        CookingAction::UseTechnique(Technique::Stir),
        CookingAction::AddIngredient(Ingredient::Oats),
    ]);
    assert_eq!(
        game.get_recipe_text(),
        "Add 1 bananas\nStir 1 times\nAdd 1 cups of oats"
    );
    assert_eq!(SmoothieMix::with_recipe(Vec::new()).get_recipe_text(), "");
    assert_eq!(
        SmoothieMix::with_recipe(vec![CookingAction::UseTechnique(Technique::Blend)])
            .get_recipe_text(),
        "Run Blender 1 times"
    );
}

#[test]
fn serving_what_was_asked_for_wins() {
    let game = SmoothieMix::new();
    let recipe = game.recipe().clone();
    let mut mixing = game.with_state(GameState::Mixing);
    for action in &recipe {
        mixing = mixing.with_added_action(*action);
        assert_eq!(mixing.get_game_result(), None);
    }
    let served = mixing.with_state(GameState::Finished);
    assert_eq!(served.get_game_result(), Some(GameResult::Victory));
    assert_eq!(served.recipe(), &recipe);
}

#[test]
fn serving_anything_else_loses() {
    let banana = CookingAction::AddIngredient(Ingredient::Banana);
    let stir = CookingAction::UseTechnique(Technique::Stir);
    let game = SmoothieMix::with_recipe(vec![banana, stir]);
    assert_eq!(
        game.with_state(GameState::Finished).get_game_result(),
        Some(GameResult::Defeat)
    );
    let reversed = game
        .with_added_action(stir)
        .with_added_action(banana)
        .with_state(GameState::Finished);
    assert_eq!(reversed.get_game_result(), Some(GameResult::Defeat));
    let too_long = game
        .with_added_action(banana)
        .with_added_action(stir)
        .with_added_action(stir)
        .with_state(GameState::Finished);
    assert_eq!(too_long.get_game_result(), Some(GameResult::Defeat));
    let right = too_long
        .with_empty_mix()
        .with_added_action(banana)
        .with_added_action(stir);
    assert_eq!(right.game_state(), GameState::Finished);
    assert_eq!(right.get_game_result(), Some(GameResult::Victory));
}

#[test]
fn while_the_recipe_is_shown_nothing_can_be_mixed() {
    let banana = CookingAction::AddIngredient(Ingredient::Banana);
    let game = SmoothieMix::with_recipe(vec![banana]);
    let reading = game.after_move(SmoothieMove::ToggleRecipe).unwrap();
    assert_eq!(reading.game_state(), GameState::ReadingRecipe);
    assert!(reading.after_move(SmoothieMove::Act(banana)).is_none());
    assert!(reading.after_move(SmoothieMove::Serve).is_none());
    assert!(reading.after_move(SmoothieMove::StartOver).is_none());
    let mixing = reading.after_move(SmoothieMove::ToggleRecipe).unwrap();
    assert_eq!(mixing.game_state(), GameState::Mixing);

    let mixed = mixing.after_move(SmoothieMove::Act(banana)).unwrap();
    assert_eq!(mixed.current_mix(), &vec![banana]);
    let emptied = mixed.after_move(SmoothieMove::StartOver).unwrap();
    assert!(emptied.current_mix().is_empty());
    let served = mixed.after_move(SmoothieMove::Serve).unwrap();
    assert_eq!(served.game_state(), GameState::Finished);
    assert_eq!(served.get_game_result(), Some(GameResult::Victory));
    assert_eq!(
        served
            .after_move(SmoothieMove::ToggleRecipe)
            .unwrap()
            .game_state(),
        GameState::ReadingRecipe
    );
}
