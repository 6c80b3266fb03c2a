//! Reactions: an ordered table of rules that turn a tile's charge into a
//! change of its type. For each tile the first rule that applies fires, and
//! no other.

use crate::elements::amount_of;
use crate::elements::covers;
use crate::elements::difference_of;
use crate::elements::matches_on;
use crate::elements::Element;
use crate::elements::ElementalAffliction;
use crate::map::lemma_index_round_trip;
use crate::map::GridMap;
use crate::tile::carried;
use crate::tile::charge_of;
use crate::tile::Tile;
use crate::tile::TileType;
use vstd::prelude::*;

verus! {

/// How a rule's prerequisite is held against a tile's charge.
#[derive(Clone, Copy, Debug, PartialEq, Eq, Structural)]
pub enum PrerequisiteType {
    /// The charge holds at least the prerequisite.
    Contains,
    /// The charge holds exactly the prerequisite's amount of each element
    /// that the prerequisite mentions.
    ExactMatch,
}

/// One rule: on a tile of type `tile_type` whose charge meets
/// `prerequisites`, the tile may change type and the prerequisite may be
/// used up.
#[derive(Clone, Copy, Debug)]
pub struct ChemicalReaction {
    pub tile_type: TileType,
    pub prerequisites: ElementalAffliction,
    pub prereq_type: PrerequisiteType,
    pub subtract_prerequisites: bool,
    pub new_tile_type: Option<TileType>,
}

/// Whether `charge` meets the prerequisite of `rule`.
pub open spec fn prereqs_met(rule: ChemicalReaction, charge: Map<Element, nat>) -> bool {
    match rule.prereq_type {
        PrerequisiteType::Contains => covers(charge, rule.prerequisites@),
        PrerequisiteType::ExactMatch => matches_on(charge, rule.prerequisites@),
    }
}

/// Whether `rule` applies to the tile `t`.
pub open spec fn fires_on(rule: ChemicalReaction, t: Tile) -> bool {
    t.tile_type == rule.tile_type && prereqs_met(rule, charge_of(t))
}

/// The first rule at or after `from` that applies to `t`.
pub open spec fn first_firing(rules: Seq<ChemicalReaction>, t: Tile, from: int) -> Option<int>
    decreases rules.len() - from,
{
    if from < 0 || from >= rules.len() {
        None
    } else if fires_on(rules[from], t) {
        Some(from)
    } else {
        first_firing(rules, t, from + 1)
    }
}

/// The tile after `rule` fired on it: the type changes where the rule names
/// a new one, and the prerequisite is taken from the charge where the rule
/// uses it up.
pub open spec fn reacted(rule: ChemicalReaction, t: Tile) -> Tile {
    Tile {
        tile_type: match rule.new_tile_type {
            Some(n) => n,
            None => t.tile_type,
        },
        structure: t.structure,
        affliction: if rule.subtract_prerequisites {
            Some(difference_of(carried(t), rule.prerequisites))
        } else {
            t.affliction
        },
    }
}

/// The tiles of a grid and the list of its edited tiles.
pub struct GridState {
    pub cells: Seq<Tile>,
    pub dirty: Seq<usize>,
}

/// The grid after the rules were held against the tile `idx`. A tile that
/// the grid does not have, or that no rule applies to, changes nothing. A
/// rule that names a new type also puts the tile on the list of edits.
pub open spec fn react_at(g: GridState, rules: Seq<ChemicalReaction>, idx: usize) -> GridState {
    if idx >= g.cells.len() {
        g
    } else {
        match first_firing(rules, g.cells[idx as int], 0) {
            None => g,
            Some(k) => GridState {
                cells: g.cells.update(idx as int, reacted(rules[k], g.cells[idx as int])),
                dirty: if rules[k].new_tile_type is Some {
                    g.dirty.push(idx)
                } else {
                    g.dirty
                },
            },
        }
    }
}

/// The grid after the rules were held against the first `n` of the tiles
/// that `changed` lists, one after the other.
pub open spec fn after_reactions(
    g: GridState,
    rules: Seq<ChemicalReaction>,
    changed: Seq<usize>,
    n: nat,
) -> GridState
    decreases n,
{
    if n == 0 {
        g
    } else {
        react_at(after_reactions(g, rules, changed, (n - 1) as nat), rules, changed[n - 1])
    }
}

/// The rule that `first_firing` finds applies, and no rule before it does;
/// where it finds none, none applies.
pub proof fn lemma_first_firing(rules: Seq<ChemicalReaction>, t: Tile, from: int)
    requires
        0 <= from,
    ensures
        match first_firing(rules, t, from) {
            Some(k) => from <= k < rules.len() && fires_on(rules[k], t) && forall|j: int|
                from <= j < k ==> !fires_on(#[trigger] rules[j], t),
            None => forall|j: int| from <= j < rules.len() ==> !fires_on(#[trigger] rules[j], t),
        },
    decreases rules.len() - from,
{
    if from < rules.len() && !fires_on(rules[from], t) {
        lemma_first_firing(rules, t, from + 1);
    }
}

impl ChemicalReaction {
    /// Whether the charge `other` meets this rule's prerequisite.
    pub fn check_prereqs_against(&self, other: &ElementalAffliction) -> (r: bool)
        ensures
            r == prereqs_met(*self, other@),
    {
        match self.prereq_type {
            PrerequisiteType::Contains => other.contains(&self.prerequisites),
            PrerequisiteType::ExactMatch => other.contains_exactly(&self.prerequisites),
        }
    }

    /// Whether this rule applies to `tile`.
    pub fn applies_to(&self, tile: &Tile) -> (r: bool)
        ensures
            r == fires_on(*self, *tile),
    {
        if !same_type(tile.tile_type, self.tile_type) {
            return false;
        }
        let charge = match tile.affliction {
            Some(a) => a,
            None => ElementalAffliction::empty(),
        };
        self.check_prereqs_against(&charge)
    }
}

fn same_type(a: TileType, b: TileType) -> (r: bool)
    ensures
        r == (a == b),
{
    match (a, b) {
        (TileType::Rock, TileType::Rock) => true,
        (TileType::Water, TileType::Water) => true,
        (TileType::Air, TileType::Air) => true,
        (TileType::Fire, TileType::Fire) => true,
        (TileType::Barren, TileType::Barren) => true,
        _ => false,
    }
}

/// The rule table. The order of the rules is their priority.
pub struct Reactions(pub Vec<ChemicalReaction>);

/// Burning ground with enough water on it hardens to rock; the water is
/// used up.
pub open spec fn is_fire_to_rock(r: ChemicalReaction) -> bool {
    &&& r.tile_type == TileType::Fire
    &&& r.prerequisites@ == Map::<Element, nat>::empty().insert(Element::Water, 20)
    &&& r.prereq_type == PrerequisiteType::Contains
    &&& r.subtract_prerequisites
    &&& r.new_tile_type == Some(TileType::Rock)
}

/// Rock with enough fire on it ignites; the fire stays.
pub open spec fn is_rock_to_fire(r: ChemicalReaction) -> bool {
    &&& r.tile_type == TileType::Rock
    &&& r.prerequisites@ == Map::<Element, nat>::empty().insert(Element::Fire, 50)
    &&& r.prereq_type == PrerequisiteType::Contains
    &&& !r.subtract_prerequisites
    &&& r.new_tile_type == Some(TileType::Fire)
}

/// Burning ground that has run out of fire cools to rock.
pub open spec fn is_fire_cooling(r: ChemicalReaction) -> bool {
    &&& r.tile_type == TileType::Fire
    &&& r.prerequisites@ == Map::<Element, nat>::empty().insert(Element::Fire, 0)
    &&& r.prereq_type == PrerequisiteType::ExactMatch
    &&& !r.subtract_prerequisites
    &&& r.new_tile_type == Some(TileType::Rock)
}

/// Whether `rules` is the rule table of the game: quenching, ignition,
/// cooling, in this order.
pub open spec fn is_standard(rules: Seq<ChemicalReaction>) -> bool {
    &&& rules.len() == 3
    &&& is_fire_to_rock(rules[0])
    &&& is_rock_to_fire(rules[1])
    &&& is_fire_cooling(rules[2])
}

/// Under the rules of the game a burning tile that holds no fire is rock
/// after one evaluation, and no other tile changes. Where the tile holds
/// less water than quenching asks for, it is the cooling rule that fires.
pub proof fn lemma_fire_without_fuel_cools(rules: Seq<ChemicalReaction>, g: GridState, idx: usize)
    requires
        is_standard(rules),
        idx < g.cells.len(),
        g.cells[idx as int].tile_type == TileType::Fire,
        amount_of(charge_of(g.cells[idx as int]), Element::Fire) == 0,
    ensures
        react_at(g, rules, idx).cells.len() == g.cells.len(),
        react_at(g, rules, idx).cells[idx as int].tile_type == TileType::Rock,
        forall|j: int|
            0 <= j < g.cells.len() && j != idx ==> react_at(g, rules, idx).cells[j] == g.cells[j],
        amount_of(charge_of(g.cells[idx as int]), Element::Water) < 20 ==> first_firing(
            rules,
            g.cells[idx as int],
            0,
        ) == Some(2int),
{
    let t = g.cells[idx as int];
    let charge = charge_of(t);
    assert(rules[2].prerequisites@.dom().contains(Element::Fire));
    assert(matches_on(charge, rules[2].prerequisites@));
    assert(fires_on(rules[2], t));
    assert(!fires_on(rules[1], t));
    assert(first_firing(rules, t, 3) is None);
    assert(first_firing(rules, t, 2) == Some(2int));
    assert(first_firing(rules, t, 1) == Some(2int));
    if amount_of(charge, Element::Water) < 20 {
        assert(rules[0].prerequisites@.dom().contains(Element::Water));
        assert(rules[0].prerequisites@[Element::Water] == 20);
        assert(!covers(charge, rules[0].prerequisites@));
        assert(!fires_on(rules[0], t));
    }
}

impl Reactions {
    /// The rules of the game, in their order of priority: quenching,
    /// ignition, cooling.
    pub fn standard() -> (r: Self)
        ensures
            is_standard(r.0@),
    {
        let fire_to_rock = ChemicalReaction {
            tile_type: TileType::Fire,
            prerequisites: ElementalAffliction::single(Element::Water, 20),
            prereq_type: PrerequisiteType::Contains,
            subtract_prerequisites: true,
            new_tile_type: Some(TileType::Rock),
        };
        let rock_to_fire = ChemicalReaction {
            tile_type: TileType::Rock,
            prerequisites: ElementalAffliction::single(Element::Fire, 50),
            prereq_type: PrerequisiteType::Contains,
            subtract_prerequisites: false,
            new_tile_type: Some(TileType::Fire),
        };
        let fire_cooling = ChemicalReaction {
            tile_type: TileType::Fire,
            prerequisites: ElementalAffliction::single(Element::Fire, 0),
            prereq_type: PrerequisiteType::ExactMatch,
            subtract_prerequisites: false,
            new_tile_type: Some(TileType::Rock),
        };
        let mut rules: Vec<ChemicalReaction> = Vec::new();
        rules.push(fire_to_rock);
        rules.push(rock_to_fire);
        rules.push(fire_cooling);
        Reactions(rules)
    }

    /// The first rule that applies to `tile`, by its place in the table.
    pub fn find_reaction(&self, tile: &Tile) -> (r: Option<usize>)
        ensures
            r is Some == first_firing(self.0@, *tile, 0) is Some,
            r is Some ==> r->0 == first_firing(self.0@, *tile, 0)->0,
            r is Some ==> r->0 < self.0@.len() && fires_on(self.0@[r->0 as int], *tile)
                && forall|j: int| 0 <= j < r->0 ==> !fires_on(#[trigger] self.0@[j], *tile),
            r is None ==> forall|j: int| 0 <= j < self.0@.len() ==> !fires_on(
                #[trigger] self.0@[j],
                *tile,
            ),
    {
        proof {
            lemma_first_firing(self.0@, *tile, 0);
        }
        let mut k: usize = 0;
        while k < self.0.len()
            invariant
                k <= self.0@.len(),
                first_firing(self.0@, *tile, 0) == first_firing(self.0@, *tile, k as int),
                forall|j: int| 0 <= j < k ==> !fires_on(#[trigger] self.0@[j], *tile),
            decreases self.0@.len() - k,
        {
            if self.0[k].applies_to(tile) {
                return Some(k);
            }
            k += 1;
        }
        None
    }
}

/// Holds the rules against each tile that `changed` lists, in that order.
/// On each tile the first rule that applies fires: it changes the tile's
/// type where it names a new one, which also puts the tile on the list of
/// edits, and takes its prerequisite from the tile's charge where it uses it
/// up. No second rule fires on the tile. On a grid without tiles nothing
/// happens.
pub fn trigger_reactions(map: &mut GridMap, reactions: &Reactions, changed: &Vec<usize>)
    requires
        old(map).wf(),
    ensures
        final(map).wf(),
        final(map).dims() == old(map).dims(),
        final(map).resized() == old(map).resized(),
        final(map).entry() == old(map).entry(),
        final(map).exit() == old(map).exit(),
        final(map).cells() == after_reactions(
            GridState { cells: old(map).cells(), dirty: old(map).dirty() },
            reactions.0@,
            changed@,
            changed@.len(),
        ).cells,
        final(map).dirty() == after_reactions(
            GridState { cells: old(map).cells(), dirty: old(map).dirty() },
            reactions.0@,
            changed@,
            changed@.len(),
        ).dirty,
        final(map).cells().len() == old(map).cells().len(),
{
    let ghost start = GridState { cells: map.cells(), dirty: map.dirty() };
    let mut i: usize = 0;
    while i < changed.len()
        invariant
            i <= changed@.len(),
            map.wf(),
            map.dims() == old(map).dims(),
            map.resized() == old(map).resized(),
            map.entry() == old(map).entry(),
            map.exit() == old(map).exit(),
            start == (GridState { cells: old(map).cells(), dirty: old(map).dirty() }),
            map.cells() == after_reactions(start, reactions.0@, changed@, i as nat).cells,
            map.dirty() == after_reactions(start, reactions.0@, changed@, i as nat).dirty,
            map.cells().len() == old(map).cells().len(),
        decreases changed@.len() - i,
    {
        let idx = changed[i];
        let ghost before = GridState { cells: map.cells(), dirty: map.dirty() };
        assert(before == after_reactions(start, reactions.0@, changed@, i as nat));
        match map.tile_at_index(idx) {
            Some(tile) => {
                match reactions.find_reaction(&tile) {
                    Some(k) => {
                        let rule = reactions.0[k];
                        if rule.subtract_prerequisites {
                            map.remove_affliction(idx, &rule.prerequisites);
                        }
                        match rule.new_tile_type {
                            Some(new_type) => {
                                proof {
                                    map.lemma_wf_tile_count();
                                    lemma_index_round_trip(map.dims(), idx as int);
                                }
                                match map.idx_to_coord(idx) {
                                    Ok(coord) => {
                                        let set = map.set_tile(coord, Some(new_type), None);
                                        assert(set is Ok);
                                    },
                                    Err(_) => {},
                                }
                            },
                            None => {},
                        }
                        assert(map.cells() =~= react_at(before, reactions.0@, idx).cells);
                        assert(map.dirty() =~= react_at(before, reactions.0@, idx).dirty);
                    },
                    None => {},
                }
            },
            None => {},
        }
        i += 1;
    }
}

} // verus!
