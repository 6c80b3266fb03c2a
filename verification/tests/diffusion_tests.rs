use twelve_knights_vigil::chemistry::{trigger_reactions, Reactions};
use twelve_knights_vigil::diffusion::spread_fire;
use twelve_knights_vigil::elements::{Element, ElementalAffliction};
use twelve_knights_vigil::helpers::Coordinate;
use twelve_knights_vigil::map::GridMap;
use twelve_knights_vigil::messages::{EffectBus, Payload};
use twelve_knights_vigil::tile::TileType;

fn fire_on(map: &GridMap, idx: usize) -> u32 {
    map.affliction_at_index(idx)
        .unwrap()
        .get_element_amount(Element::Fire)
}

fn ignite(map: &mut GridMap, x: usize, y: usize, fuel: u32) -> usize {
    let coord = Coordinate::from((x, y));
    map.set_tile(coord, Some(TileType::Fire), None).unwrap();
    let idx = map.coord_to_idx(coord).unwrap();
    map.apply_affliction(idx, &ElementalAffliction::single(Element::Fire, fuel));
    idx
}

#[test]
fn an_inner_tile_gives_one_unit_to_each_of_its_eight_neighbours() {
    let mut map = GridMap::new((4, 4));
    let source = ignite(&mut map, 1, 1, 100);
    assert_eq!(source, 5);
    let mut bus = EffectBus::new();

    spread_fire(&map, &mut bus);
    assert_eq!(bus.len(), 9);
    let mut changed = bus.resolve(&mut map);
    changed.sort();
    assert_eq!(changed, vec![0, 1, 2, 4, 5, 6, 8, 9, 10]);

    assert_eq!(fire_on(&map, 5), 92);
    for idx in [0, 1, 2, 4, 6, 8, 9, 10] {
        assert_eq!(fire_on(&map, idx), 1);
    }
    for idx in [3, 7, 11, 12, 13, 14, 15] {
        assert_eq!(fire_on(&map, idx), 0);
    }

    trigger_reactions(&mut map, &Reactions::standard(), &changed);
    assert_eq!(map.tile_type_at_index(5), Some(&TileType::Fire));
    for idx in 0..16 {
        if idx != 5 {
            assert_eq!(map.tile_type_at_index(idx), Some(&TileType::Barren));
        }
    }
}

#[test]
fn a_corner_tile_keeps_the_fuel_it_cannot_spend() {
    let mut map = GridMap::new((4, 4));
    ignite(&mut map, 0, 0, 100);
    let mut bus = EffectBus::new();
    spread_fire(&map, &mut bus);
    bus.resolve(&mut map);
    assert_eq!(fire_on(&map, 0), 97);
    for idx in [1, 4, 5] {
        assert_eq!(fire_on(&map, idx), 1);
    }
}

#[test]
fn fire_never_spreads_further_than_its_fuel() {
    let mut map = GridMap::new((4, 4));
    ignite(&mut map, 1, 1, 3);
    let mut bus = EffectBus::new();
    spread_fire(&map, &mut bus);
    assert_eq!(bus.len(), 4);
    bus.resolve(&mut map);
    assert_eq!(fire_on(&map, 5), 0);
    for idx in [0, 1, 2] {
        assert_eq!(fire_on(&map, idx), 1);
    }
    for idx in [4, 6, 8, 9, 10] {
        assert_eq!(fire_on(&map, idx), 0);
    }
}

#[test]
fn the_messages_name_their_source() {
    let mut map = GridMap::new((2, 1));
    ignite(&mut map, 1, 0, 5);
    let mut bus = EffectBus::new();
    spread_fire(&map, &mut bus);
    assert_eq!(bus.len(), 2);
    let spark = bus.messages()[0];
    assert_eq!(spark.sender.map(|s| s.0), Some(1));
    assert_eq!(spark.target.map(|t| t.0), Some(0));
    match spark.payload {
        Payload::ApplyElement(a) => assert_eq!(a.get_element_amount(Element::Fire), 1),
        _ => panic!("a spark adds fire"),
    }
    let spent = bus.messages()[1];
    assert_eq!(spent.sender.map(|s| s.0), Some(1));
    assert_eq!(spent.target.map(|t| t.0), Some(1));
    match spent.payload {
        Payload::RemoveElement(a) => assert_eq!(a.get_element_amount(Element::Fire), 1),
        _ => panic!("the source pays in fire"),
    }
}

#[test]
fn a_fire_tile_without_fuel_spends_nothing() {
    let mut map = GridMap::new((3, 3));
    map.set_tile(Coordinate::from((1, 1)), Some(TileType::Fire), None)
        .unwrap();
    let mut bus = EffectBus::new();
    spread_fire(&map, &mut bus);
    assert_eq!(bus.len(), 1);
    match bus.messages()[0].payload {
        Payload::RemoveElement(a) => assert_eq!(a.get_element_amount(Element::Fire), 0),
        _ => panic!("the source reports what it spent"),
    }
    bus.resolve(&mut map);
    for idx in 0..9 {
        assert_eq!(fire_on(&map, idx), 0);
    }
}

#[test]
fn tiles_that_do_not_burn_spread_nothing() {
    let mut map = GridMap::new((3, 3));
    map.apply_affliction(4, &ElementalAffliction::single(Element::Fire, 30));
    let mut bus = EffectBus::new();
    spread_fire(&map, &mut bus);
    assert_eq!(bus.len(), 0);
    spread_fire(&GridMap::empty(), &mut bus);
    assert_eq!(bus.len(), 0);
}

#[test]
fn two_fires_next_to_each_other_feed_each_other() {
    let mut map = GridMap::new((2, 1));
    ignite(&mut map, 0, 0, 10);
    ignite(&mut map, 1, 0, 20);
    let mut bus = EffectBus::new();
    spread_fire(&map, &mut bus);
    bus.resolve(&mut map);
    assert_eq!(fire_on(&map, 0), 10);
    assert_eq!(fire_on(&map, 1), 20);
}
