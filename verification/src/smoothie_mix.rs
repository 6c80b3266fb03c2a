//! The smoothie game: read the recipe, then mix it from memory.

use crate::random::random_in_range;
use crate::random::shuffle;
use crate::text::decimal;
use crate::text::decimal_text;
use crate::tic_tac_toe::GameResult;
use vstd::prelude::*;
use vstd::string::*;

verus! {

/// What the player is doing.
#[derive(Clone, Copy, PartialEq, Eq, Debug, Structural)]
pub enum GameState {
    Mixing,
    ReadingRecipe,
    Finished,
}

/// What goes into a smoothie.
#[derive(Clone, Copy, PartialEq, Eq, Debug, Structural)]
pub enum Ingredient {
    ProteinPowder,
    Banana,
    Oats,
}

/// What is done to a smoothie.
#[derive(Clone, Copy, PartialEq, Eq, Debug, Structural)]
pub enum Technique {
    Blend,
    Shake,
    Stir,
}

/// One step of a recipe.
#[derive(Clone, Copy, PartialEq, Eq, Debug, Structural)]
pub enum CookingAction {
    AddIngredient(Ingredient),
    UseTechnique(Technique),
}

impl Ingredient {
    /// Every ingredient, in declaration order.
    pub fn all() -> (r: [Ingredient; 3])
        ensures
            r@ == seq![Ingredient::ProteinPowder, Ingredient::Banana, Ingredient::Oats],
    {
        let r = [Ingredient::ProteinPowder, Ingredient::Banana, Ingredient::Oats];
        assert(r@ =~= seq![Ingredient::ProteinPowder, Ingredient::Banana, Ingredient::Oats]);
        r
    }

    /// The name shown to the player.
    pub open spec fn spec_display_name(self) -> Seq<char> {
        match self {
            Ingredient::ProteinPowder => "Protein Powder"@,
            Ingredient::Banana => "Banana"@,
            Ingredient::Oats => "Oats"@,
        }
    }

    /// The name shown to the player.
    pub fn display_name(&self) -> (r: &'static str)
        ensures
            r@ == self.spec_display_name(),
    {
        match *self {
            Ingredient::ProteinPowder => "Protein Powder",
            Ingredient::Banana => "Banana",
            Ingredient::Oats => "Oats",
        }
    }
}

impl Technique {
    /// Every technique, in declaration order.
    pub fn all() -> (r: [Technique; 3])
        ensures
            r@ == seq![Technique::Blend, Technique::Shake, Technique::Stir],
    {
        let r = [Technique::Blend, Technique::Shake, Technique::Stir];
        assert(r@ =~= seq![Technique::Blend, Technique::Shake, Technique::Stir]);
        r
    }

    /// The name shown to the player.
    pub open spec fn spec_display_name(self) -> Seq<char> {
        match self {
            Technique::Blend => "Blend"@,
            Technique::Shake => "Shake"@,
            Technique::Stir => "Stir"@,
        }
    }

    /// The name shown to the player.
    pub fn display_name(&self) -> (r: &'static str)
        ensures
            r@ == self.spec_display_name(),
    {
        match *self {
            Technique::Blend => "Blend",
            Technique::Shake => "Shake",
            Technique::Stir => "Stir",
        }
    }
}

/// What stands before the count in a step's line of the recipe.
pub open spec fn line_head(action: CookingAction) -> Seq<char> {
    match action {
        CookingAction::AddIngredient(_) => "Add "@,
        CookingAction::UseTechnique(Technique::Blend) => "Run Blender "@,
        CookingAction::UseTechnique(Technique::Shake) => "Shake Firmly "@,
        CookingAction::UseTechnique(Technique::Stir) => "Stir "@,
    }
}

/// What stands behind the count in a step's line of the recipe.
pub open spec fn line_tail(action: CookingAction) -> Seq<char> {
    match action {
        CookingAction::AddIngredient(Ingredient::ProteinPowder) => " tablespoons of Protein Powder"@,
        CookingAction::AddIngredient(Ingredient::Banana) => " bananas"@,
        CookingAction::AddIngredient(Ingredient::Oats) => " cups of oats"@,
        CookingAction::UseTechnique(_) => " times"@,
    }
}

/// A step's line of the recipe, for the step done `count` times.
pub open spec fn recipe_line(action: CookingAction, count: nat) -> Seq<char> {
    line_head(action) + decimal(count) + line_tail(action)
}

/// The text of the first `n` steps of a recipe: one line per step, each
/// done once, with a line break between two lines.
pub open spec fn recipe_text(recipe: Seq<CookingAction>, n: nat) -> Seq<char>
    decreases n,
{
    if n == 0 {
        Seq::<char>::empty()
    } else if n == 1 {
        recipe_line(recipe[0], 1)
    } else {
        recipe_text(recipe, (n - 1) as nat) + "\n"@ + recipe_line(recipe[n - 1], 1)
    }
}

impl CookingAction {
    /// A recipe of `steps` steps, each drawn by chance: first whether to
    /// add or to do something, then what.
    pub fn generate_random_recipe(steps: usize) -> (recipe: Vec<CookingAction>)
        ensures
            recipe@.len() == steps,
    {
        let mut recipe: Vec<CookingAction> = Vec::new();
        let mut i: usize = 0;
        while i < steps
            invariant
                i <= steps,
                recipe@.len() == i,
            decreases steps - i,
        {
            let action = if random_in_range(0, 2) == 0 {
                let mut ingredients = Ingredient::all();
                shuffle(&mut ingredients);
                CookingAction::AddIngredient(ingredients[0])
            } else {
                let mut techniques = Technique::all();
                shuffle(&mut techniques);
                CookingAction::UseTechnique(techniques[0])
            };
            recipe.push(action);
            i += 1;
        }
        recipe
    }

    /// The step's line of the recipe, for the step done `count` times.
    pub fn to_recipe_line(&self, count: usize) -> (line: String)
        ensures
            line@ == recipe_line(*self, count as nat),
    {
        let head = match *self {
            CookingAction::AddIngredient(_) => "Add ",
            CookingAction::UseTechnique(technique) => match technique {
                Technique::Blend => "Run Blender ",
                Technique::Shake => "Shake Firmly ",
                Technique::Stir => "Stir ",
            },
        };
        let tail = match *self {
            CookingAction::AddIngredient(ingredient) => match ingredient {
                Ingredient::ProteinPowder => " tablespoons of Protein Powder",
                Ingredient::Banana => " bananas",
                Ingredient::Oats => " cups of oats",
            },
            CookingAction::UseTechnique(_) => " times",
        };
        let mut line = String::from_str(head);
        let number = decimal_text(count);
        line.append(number.as_str());
        line.append(tail);
        line
    }
}

/// A copy of the steps.
fn copied(steps: &Vec<CookingAction>) -> (r: Vec<CookingAction>)
    ensures
        r@ == steps@,
{
    let mut r: Vec<CookingAction> = Vec::new();
    let mut i: usize = 0;
    while i < steps.len()
        invariant
            i <= steps@.len(),
            r@ == steps@.subrange(0, i as int),
        decreases steps@.len() - i,
    {
        r.push(steps[i]);
        assert(r@ =~= steps@.subrange(0, i + 1));
        i += 1;
    }
    assert(r@ =~= steps@);
    r
}

/// Whether two lists of steps are the same.
fn same_steps(a: &Vec<CookingAction>, b: &Vec<CookingAction>) -> (r: bool)
    ensures
        r == (a@ == b@),
{
    if a.len() != b.len() {
        return false;
    }
    let mut i: usize = 0;
    while i < a.len()
        invariant
            i <= a@.len(),
            a@.len() == b@.len(),
            forall|j: int| 0 <= j < i ==> a@[j] == b@[j],
        decreases a@.len() - i,
    {
        if a[i] != b[i] {
            return false;
        }
        i += 1;
    }
    assert(a@ =~= b@);
    true
}

/// What the player can do in the game.
#[derive(Clone, Copy, PartialEq, Eq, Debug, Structural)]
pub enum SmoothieMove {
    /// Tick or untick the box that shows the recipe.
    ToggleRecipe,
    /// Add an ingredient or use a technique.
    Act(CookingAction),
    /// Hand the smoothie over.
    Serve,
    /// Empty the mixer.
    StartOver,
}

/// A game of smoothie mixing.
#[derive(Debug)]
pub struct SmoothieMix {
    game_state: GameState,
    recipe: Vec<CookingAction>,
    current_mix: Vec<CookingAction>,
}

impl SmoothieMix {
    /// What the player is doing.
    pub closed spec fn state(&self) -> GameState {
        self.game_state
    }

    /// The steps asked for.
    pub closed spec fn asked(&self) -> Seq<CookingAction> {
        self.recipe@
    }

    /// The steps taken.
    pub closed spec fn mixed(&self) -> Seq<CookingAction> {
        self.current_mix@
    }

    /// A new game: a recipe of three steps drawn by chance, an empty mixer.
    pub fn new() -> (g: Self)
        ensures
            g.state() == GameState::Mixing,
            g.asked().len() == 3,
            g.mixed() == Seq::<CookingAction>::empty(),
    {
        Self {
            game_state: GameState::Mixing,
            recipe: CookingAction::generate_random_recipe(3),
            current_mix: Vec::new(),
        }
    }

    /// A new game with the given recipe and an empty mixer.
    pub fn with_recipe(recipe: Vec<CookingAction>) -> (g: Self)
        ensures
            g.state() == GameState::Mixing,
            g.asked() == recipe@,
            g.mixed() == Seq::<CookingAction>::empty(),
    {
        Self { game_state: GameState::Mixing, recipe, current_mix: Vec::new() }
    }

    /// What the player is doing.
    pub fn game_state(&self) -> (s: GameState)
        ensures
            s == self.state(),
    {
        self.game_state
    }

    /// The steps asked for.
    pub fn recipe(&self) -> (r: &Vec<CookingAction>)
        ensures
            r@ == self.asked(),
    {
        &self.recipe
    }

    /// The steps taken.
    pub fn current_mix(&self) -> (r: &Vec<CookingAction>)
        ensures
            r@ == self.mixed(),
    {
        &self.current_mix
    }

    /// The same game in another state.
    pub fn with_state(&self, state: GameState) -> (g: Self)
        ensures
            g.state() == state,
            g.asked() == self.asked(),
            g.mixed() == self.mixed(),
    {
        Self {
            game_state: state,
            recipe: copied(&self.recipe),
            current_mix: copied(&self.current_mix),
        }
    }

    /// The same game with one more step taken.
    pub fn with_added_action(&self, action: CookingAction) -> (g: Self)
        ensures
            g.state() == self.state(),
            g.asked() == self.asked(),
            g.mixed() == self.mixed().push(action),
    {
        let mut current_mix = copied(&self.current_mix);
        current_mix.push(action);
        Self { game_state: self.game_state, recipe: copied(&self.recipe), current_mix }
    }

    /// The recipe as text: one line per step, each done once.
    pub fn get_recipe_text(&self) -> (text: String)
        ensures
            text@ == recipe_text(self.asked(), self.asked().len()),
    {
        let mut text = String::from_str("");
        proof {
            reveal_strlit("");
            assert(text@ =~= Seq::<char>::empty());
        }
        let mut i: usize = 0;
        while i < self.recipe.len()
            invariant
                i <= self.recipe@.len(),
                text@ == recipe_text(self.recipe@, i as nat),
            decreases self.recipe@.len() - i,
        {
            if i > 0 {
                text.append("\n");
            }
            let line = self.recipe[i].to_recipe_line(1);
            text.append(line.as_str());
            proof {
                if i == 0 {
                    assert(text@ =~= recipe_line(self.recipe@[0], 1));
                }
            }
            i += 1;
        }
        text
    }

    /// The same game with an empty mixer.
    pub fn with_empty_mix(&self) -> (g: Self)
        ensures
            g.state() == self.state(),
            g.asked() == self.asked(),
            g.mixed() == Seq::<CookingAction>::empty(),
    {
        Self { game_state: self.game_state, recipe: copied(&self.recipe), current_mix: Vec::new() }
    }

    /// How the game ended: won where the steps taken are the steps asked
    /// for, in their order, and lost otherwise. A game that was not served
    /// yet has no result.
    pub fn get_game_result(&self) -> (r: Option<GameResult>)
        ensures
            r == (if self.state() != GameState::Finished {
                None
            } else if self.asked() == self.mixed() {
                Some(GameResult::Victory)
            } else {
                Some(GameResult::Defeat)
            }),
    {
        match self.game_state {
            GameState::Finished => {
                if same_steps(&self.recipe, &self.current_mix) {
                    Some(GameResult::Victory)
                } else {
                    Some(GameResult::Defeat)
                }
            },
            _ => None,
        }
    }

    /// The game after the player's move, or nothing where the move is not
    /// on offer. The box that shows the recipe can always be ticked and
    /// unticked; while the recipe is shown nothing else can be done.
    pub fn after_move(&self, choice: SmoothieMove) -> (r: Option<Self>)
        ensures
            match choice {
                SmoothieMove::ToggleRecipe => r is Some && r->Some_0.asked() == self.asked()
                    && r->Some_0.mixed() == self.mixed() && r->Some_0.state() == (if self.state()
                    == GameState::ReadingRecipe {
                    GameState::Mixing
                } else {
                    GameState::ReadingRecipe
                }),
                _ => if self.state() == GameState::ReadingRecipe {
                    r is None
                } else {
                    r is Some && r->Some_0.asked() == self.asked() && (match choice {
                        SmoothieMove::Act(action) => r->Some_0.state() == self.state()
                            && r->Some_0.mixed() == self.mixed().push(action),
                        SmoothieMove::Serve => r->Some_0.state() == GameState::Finished
                            && r->Some_0.mixed() == self.mixed(),
                        _ => r->Some_0.state() == self.state() && r->Some_0.mixed() == Seq::<
                            CookingAction,
                        >::empty(),
                    })
                },
            },
    {
        let reading = match self.game_state {
            GameState::ReadingRecipe => true,
            _ => false,
        };
        match choice {
            SmoothieMove::ToggleRecipe => {
                if reading {
                    Some(self.with_state(GameState::Mixing))
                } else {
                    Some(self.with_state(GameState::ReadingRecipe))
                }
            },
            SmoothieMove::Act(action) => {
                if reading {
                    None
                } else {
                    Some(self.with_added_action(action))
                }
            },
            SmoothieMove::Serve => {
                if reading {
                    None
                } else {
                    Some(self.with_state(GameState::Finished))
                }
            },
            SmoothieMove::StartOver => {
                if reading {
                    None
                } else {
                    Some(self.with_empty_mix())
                }
            },
        }
    }
}

} // verus!
