use twelve_knights_vigil::coordinate::Coordinate as Square;
use twelve_knights_vigil::health::{handle_harm_messages, Health};
use twelve_knights_vigil::helpers::Coordinate;
use twelve_knights_vigil::map::{
    place_portals, reload_all_map_tiles, update_changed_tiles, GridMap, Reload, TileUpdate,
};
use twelve_knights_vigil::messages::EffectBus;
use twelve_knights_vigil::power_bar::normal_knight_ai_turn;
use twelve_knights_vigil::projectiles::{
    lodged_lifetime, progress_projectile_lifespans, projectile_count, report_hit, Multishot,
    FIXED_STAGE_MS,
};
use twelve_knights_vigil::tic_tac_toe::{GameState, Player, TicTacToe};
use twelve_knights_vigil::tile::TileType;
use twelve_knights_vigil::towers::Damage;

fn at(x: usize, y: usize) -> Coordinate {
    Coordinate::from((x, y))
}

#[test]
fn the_edits_of_a_cycle_are_handed_over_once_in_the_order_of_the_grid() {
    let mut map = GridMap::new((3, 2));
    map.set_tile(at(2, 1), Some(TileType::Rock), None).unwrap();
    map.set_tile(at(0, 0), Some(TileType::Water), None).unwrap();
    map.set_tile(at(2, 1), Some(TileType::Fire), None).unwrap();
    assert_eq!(
        update_changed_tiles(&mut map),
        vec![
            TileUpdate {
                index: 0,
                tile_type: TileType::Water
            },
            TileUpdate {
                index: 5,
                tile_type: TileType::Fire
            },
        ]
    );
    assert!(map.dirty_tiles().is_empty());
    assert!(update_changed_tiles(&mut map).is_empty());
    assert_eq!(map.tile_type_at_index(5), Some(&TileType::Fire));
}

#[test]
fn a_resize_asks_for_pictures_to_be_added_or_dropped() {
    let mut map = GridMap::new((3, 2));
    assert!(map.size_dirty());
    assert_eq!(reload_all_map_tiles(&mut map, 0), Reload::Spawn(6));
    assert!(!map.size_dirty());
    map.resize((2, 2));
    assert_eq!(reload_all_map_tiles(&mut map, 6), Reload::DespawnFrom(4));
    map.resize((1, 4));
    assert_eq!(reload_all_map_tiles(&mut map, 4), Reload::Keep);
    assert!(!map.size_dirty());
}

#[test]
fn portals_stand_on_the_ends_of_the_wave() {
    let mut map = GridMap::new((4, 3));
    map.set_wave_entry_coord(at(0, 1));
    map.set_wave_exit_coord(at(3, 2));
    assert_eq!(place_portals(&map), Some((4, 11)));
    map.set_wave_exit_coord(at(4, 2));
    assert_eq!(place_portals(&map), None);
    assert_eq!(place_portals(&GridMap::empty()), None);
}

#[test]
fn chance_answers_where_it_is_the_turn_of_o() {
    let mut waiting = TicTacToe::new();
    waiting.play_square(Square::new(1, 1)).unwrap();
    let mut games = vec![TicTacToe::new(), waiting];
    normal_knight_ai_turn(&mut games);
    assert_eq!(games[0].get_as_string(), "...\n...\n...");
    assert_eq!(games[1].game_state(), GameState::InProgress(Player::X));
    let marks: Vec<char> = games[1]
        .get_as_string()
        .chars()
        .filter(|c| *c == 'O')
        .collect();
    assert_eq!(marks.len(), 1);
    assert_eq!(games[1].get_cell(1, 1).map(|c| format!("{c:?}")).unwrap(), "Occupied(X)");
}

#[test]
fn a_launch_brings_as_many_projectiles_as_the_weapon_says() {
    assert_eq!(projectile_count(None), 1);
    assert_eq!(projectile_count(Some(Multishot(3))), 3);
    assert_eq!(projectile_count(Some(Multishot(0))), 0);
    assert_eq!(projectile_count(Some(Multishot(-2))), 0);
}

#[test]
fn projectiles_last_until_their_time_is_up() {
    assert_eq!(FIXED_STAGE_MS, 16);
    let mut lifetimes = vec![40, 16, 17, 0, 5];
    assert_eq!(progress_projectile_lifespans(&mut lifetimes), vec![1, 3, 4]);
    assert_eq!(lifetimes, vec![24, 0, 1, 0, 0]);
}

#[test]
fn a_projectile_that_struck_stays_for_two_to_five_seconds() {
    let mut seen = std::collections::BTreeSet::new();
    for _ in 0..300 {
        seen.insert(lodged_lifetime());
    }
    assert_eq!(
        seen.into_iter().collect::<Vec<u64>>(),
        vec![2000, 3000, 4000, 5000]
    );
}

#[test]
fn a_hit_harms_the_enemy_it_struck() {
    let mut bus = EffectBus::new();
    let mut healths = vec![Health::new(10), Health::new(10)];
    report_hit(1, Damage(4), &mut bus);
    handle_harm_messages(&mut bus, &mut healths);
    assert_eq!(healths[0].get_current(), 10);
    assert_eq!(healths[1].get_current(), 6);
}
