use twelve_knights_vigil::building::{
    handle_build_tower_messages, handle_place_knight_messages, judge_build, judge_placement,
    sell_towers, BuildVerdict, PlaceVerdict,
};
use twelve_knights_vigil::cooldown::Cooldown;
use twelve_knights_vigil::gold::{change_gold, Gold};
use twelve_knights_vigil::cheats::Cheats;
use twelve_knights_vigil::helpers::Coordinate;
use twelve_knights_vigil::input::{
    pick_up_knight, pick_up_tower, reset_ui_action, send_build_tower_messages,
    send_reset_message, send_sell_message, tower_selection, CursorState, SelectionTarget,
    UIAction,
};
use twelve_knights_vigil::knights::{KUsageStatus, Knight, KnightStatuses};
use twelve_knights_vigil::map::GridMap;
use twelve_knights_vigil::messages::{EffectBus, Payload, Target};
use twelve_knights_vigil::system_alerts::SystemAlerts;
use twelve_knights_vigil::tile::TileType;
use twelve_knights_vigil::towers::{
    add_knight_to_tower, fire_projectiles_at_targets, remove_knight_from_tower,
    spawn_projectile_message, spawn_tower, tower_at, BuildTower, PlaceKnight, ProjectileType,
    Sell, SpawnProjectile, Tower, TowerType, TOWER_COST,
};

fn at(x: usize, y: usize) -> Coordinate {
    Coordinate::from((x, y))
}

fn alert_texts(alerts: &SystemAlerts) -> Vec<String> {
    (0..alerts.len())
        .map(|i| alerts.get(i).unwrap().text)
        .collect()
}

fn build(bus: &mut EffectBus, x: usize, y: usize, t_type: TowerType) {
    bus.send(
        None,
        Some(Target(0)),
        Payload::BuildTower(BuildTower {
            location: at(x, y),
            t_type,
        }),
    );
}

fn place(bus: &mut EffectBus, x: usize, y: usize, knight: Knight) {
    bus.send(
        None,
        Some(Target(0)),
        Payload::PlaceKnight(PlaceKnight {
            location: at(x, y),
            knight,
        }),
    );
}

#[test]
fn towers_are_listed_in_the_order_built() {
    let mut towers = Vec::new();
    assert_eq!(spawn_tower(&mut towers, at(1, 1), TowerType::Short), 0);
    assert_eq!(spawn_tower(&mut towers, at(2, 1), TowerType::Tall), 1);
    assert_eq!(spawn_tower(&mut towers, at(1, 1), TowerType::Medium), 2);
    assert_eq!(
        towers[1],
        Tower {
            location: at(2, 1),
            t_type: TowerType::Tall,
            knight: None
        }
    );
    assert_eq!(tower_at(&towers, at(1, 1)), Some(0));
    assert_eq!(tower_at(&towers, at(2, 1)), Some(1));
    assert_eq!(tower_at(&towers, at(0, 0)), None);
}

#[test]
fn a_knight_mans_a_tower_and_leaves_it() {
    let mut towers = Vec::new();
    spawn_tower(&mut towers, at(0, 0), TowerType::Short);
    assert!(add_knight_to_tower(&mut towers, 0, Knight::Lizard));
    assert_eq!(towers[0].knight, Some(Knight::Lizard));
    assert!(!add_knight_to_tower(&mut towers, 1, Knight::Swole));
    assert_eq!(remove_knight_from_tower(&mut towers, 0), Some(Knight::Lizard));
    assert_eq!(towers[0].knight, None);
    assert_eq!(remove_knight_from_tower(&mut towers, 0), None);
    assert_eq!(remove_knight_from_tower(&mut towers, 3), None);
}

#[test]
fn a_tower_is_built_on_a_free_barren_tile_and_billed() {
    let map = GridMap::new((3, 3));
    let mut bus = EffectBus::new();
    let mut towers = Vec::new();
    let mut alerts = SystemAlerts::new();
    let mut gold = Gold(200);
    build(&mut bus, 1, 2, TowerType::Medium);

    handle_build_tower_messages(&mut bus, &map, &mut towers, &mut alerts, &gold);

    assert_eq!(
        towers,
        vec![Tower {
            location: at(1, 2),
            t_type: TowerType::Medium,
            knight: None
        }]
    );
    assert_eq!(alerts.len(), 0);
    assert_eq!(bus.len(), 2);
    assert!(bus.messages()[0].handled);
    assert!(matches!(bus.messages()[1].payload, Payload::ChangeGold(c) if c.0 == -TOWER_COST));
    assert_eq!(TOWER_COST, 150);

    change_gold(&mut bus, &mut gold, &Cheats::new(false, false));
    assert_eq!(gold.get(), 50);
}

#[test]
fn a_tower_is_refused_where_the_site_or_the_purse_is_wrong() {
    let mut map = GridMap::new((3, 3));
    map.set_tile(at(0, 0), Some(TileType::Rock), None).unwrap();
    let mut bus = EffectBus::new();
    let mut towers = Vec::new();
    spawn_tower(&mut towers, at(2, 2), TowerType::Short);
    let mut alerts = SystemAlerts::new();

    build(&mut bus, 0, 0, TowerType::Short);
    build(&mut bus, 2, 2, TowerType::Short);
    build(&mut bus, 5, 5, TowerType::Short);
    handle_build_tower_messages(&mut bus, &map, &mut towers, &mut alerts, &Gold(1000));
    assert_eq!(towers.len(), 1);
    assert_eq!(
        alert_texts(&alerts),
        vec!["Invalid Location", "Invalid Location", "Invalid Location"]
    );
    assert_eq!(bus.len(), 3);

    build(&mut bus, 1, 1, TowerType::Short);
    build(&mut bus, 0, 0, TowerType::Short);
    handle_build_tower_messages(&mut bus, &map, &mut towers, &mut alerts, &Gold(149));
    assert_eq!(towers.len(), 1);
    assert_eq!(
        alert_texts(&alerts)[3..],
        ["Not enough gold.", "Invalid Location"]
    );
    assert!(bus.messages().iter().all(|m| m.handled));
}

#[test]
fn two_requests_for_one_tile_build_one_tower() {
    let map = GridMap::new((2, 2));
    let mut bus = EffectBus::new();
    let mut towers = Vec::new();
    let mut alerts = SystemAlerts::new();
    build(&mut bus, 1, 1, TowerType::Short);
    build(&mut bus, 1, 1, TowerType::Tall);
    handle_build_tower_messages(&mut bus, &map, &mut towers, &mut alerts, &Gold(150));
    assert_eq!(towers.len(), 1);
    assert_eq!(towers[0].t_type, TowerType::Short);
    assert_eq!(alert_texts(&alerts), vec!["Invalid Location"]);
}

#[test]
fn the_verdict_on_a_site_looks_at_the_site_first() {
    let map = GridMap::new((2, 2));
    let towers = vec![Tower {
        location: at(0, 0),
        t_type: TowerType::Short,
        knight: None,
    }];
    let order = |x, y| BuildTower {
        location: at(x, y),
        t_type: TowerType::Tall,
    };
    assert_eq!(
        judge_build(&map, &towers, &Gold(150), order(1, 0)),
        BuildVerdict::Built
    );
    assert_eq!(
        judge_build(&map, &towers, &Gold(149), order(1, 0)),
        BuildVerdict::NotEnoughGold
    );
    assert_eq!(
        judge_build(&map, &towers, &Gold(0), order(0, 0)),
        BuildVerdict::InvalidLocation
    );
    assert_eq!(
        judge_build(&map, &towers, &Gold(500), order(2, 0)),
        BuildVerdict::InvalidLocation
    );
}

#[test]
fn a_ready_knight_takes_a_free_tower() {
    let mut towers = Vec::new();
    spawn_tower(&mut towers, at(1, 1), TowerType::Short);
    spawn_tower(&mut towers, at(2, 2), TowerType::Short);
    let mut statuses = KnightStatuses::new();
    statuses.set_status(Knight::Swole, KUsageStatus::Ready);
    let mut alerts = SystemAlerts::new();
    let mut bus = EffectBus::new();

    place(&mut bus, 2, 2, Knight::Normal);
    place(&mut bus, 0, 0, Knight::Swole);
    place(&mut bus, 1, 1, Knight::Normal);
    place(&mut bus, 2, 2, Knight::Swole);
    place(&mut bus, 1, 1, Knight::Lizard);
    handle_place_knight_messages(&mut bus, &mut towers, &mut alerts, &mut statuses);

    assert_eq!(towers[1].knight, Some(Knight::Normal));
    assert_eq!(towers[0].knight, None);
    assert_eq!(statuses.get_status(Knight::Normal), KUsageStatus::Busy);
    assert_eq!(statuses.get_status(Knight::Swole), KUsageStatus::Ready);
    assert_eq!(
        alert_texts(&alerts),
        vec![
            "You must place a knight on top of an existing Tower.",
            "You can't use that knight!",
            "There's already a knight there.",
            "You can't use that knight!",
        ]
    );
    assert!(bus.messages().iter().all(|m| m.handled));
}

#[test]
fn the_verdict_on_a_posting_names_the_tower() {
    let mut towers = Vec::new();
    spawn_tower(&mut towers, at(0, 0), TowerType::Short);
    spawn_tower(&mut towers, at(3, 0), TowerType::Short);
    let statuses = KnightStatuses::new();
    let order = PlaceKnight {
        location: at(3, 0),
        knight: Knight::Normal,
    };
    assert_eq!(
        judge_placement(&towers, &statuses, order),
        PlaceVerdict::Placed(1)
    );
    assert_eq!(
        judge_placement(
            &towers,
            &statuses,
            PlaceKnight {
                location: at(3, 0),
                knight: Knight::Banner
            }
        ),
        PlaceVerdict::KnightNotReady
    );
    add_knight_to_tower(&mut towers, 1, Knight::Swole);
    assert_eq!(
        judge_placement(&towers, &statuses, order),
        PlaceVerdict::TowerManned
    );
    assert_eq!(
        judge_placement(
            &towers,
            &statuses,
            PlaceKnight {
                location: at(1, 0),
                knight: Knight::Normal
            }
        ),
        PlaceVerdict::NoTower
    );
}

#[test]
fn selling_frees_the_knight_and_removes_the_tower() {
    let mut towers = Vec::new();
    for x in 0..4 {
        spawn_tower(&mut towers, at(x, 0), TowerType::Short);
    }
    add_knight_to_tower(&mut towers, 1, Knight::Normal);
    add_knight_to_tower(&mut towers, 2, Knight::Swole);
    let mut statuses = KnightStatuses::new();
    statuses.set_status(Knight::Normal, KUsageStatus::Busy);
    statuses.set_status(Knight::Swole, KUsageStatus::Busy);
    let mut bus = EffectBus::new();
    bus.send(None, Some(Target(1)), Payload::Sell(Sell));
    bus.send(None, Some(Target(3)), Payload::Sell(Sell));
    bus.send(None, Some(Target(1)), Payload::Sell(Sell));
    bus.send(None, Some(Target(9)), Payload::Sell(Sell));
    bus.send(None, None, Payload::Sell(Sell));

    let sold = sell_towers(&mut bus, &mut towers, &mut statuses);
    assert_eq!(sold, vec![1, 3]);

    let left: Vec<Coordinate> = towers.iter().map(|t| t.location).collect();
    assert_eq!(left, vec![at(0, 0), at(2, 0)]);
    assert_eq!(towers[1].knight, Some(Knight::Swole));
    assert_eq!(statuses.get_status(Knight::Normal), KUsageStatus::Ready);
    assert_eq!(statuses.get_status(Knight::Swole), KUsageStatus::Busy);
    assert!(bus.messages().iter().all(|m| m.handled));
}

#[test]
fn a_tower_fires_when_it_has_a_target_and_is_ready() {
    let mut ready = Cooldown::from_millis(10);
    ready.progress_milliseconds(10);
    let waiting = Cooldown::from_millis(10);
    let targets = vec![Some(4), Some(5), None, Some(6)];
    let cooldowns = vec![ready, waiting, ready, ready];
    let mut bus = EffectBus::new();

    fire_projectiles_at_targets(&targets, &cooldowns, &mut bus);

    assert_eq!(bus.len(), 4);
    let seen: Vec<(Option<usize>, Option<usize>, bool)> = bus
        .messages()
        .iter()
        .map(|m| {
            (
                m.sender.map(|s| s.0),
                m.target.map(|t| t.0),
                matches!(
                    m.payload,
                    Payload::SpawnProjectile(SpawnProjectile(ProjectileType::Ballista))
                ),
            )
        })
        .collect();
    assert_eq!(
        seen,
        vec![
            (Some(0), Some(4), true),
            (None, Some(0), false),
            (Some(3), Some(6), true),
            (None, Some(3), false),
        ]
    );
    assert!(matches!(bus.messages()[1].payload, Payload::ResetCooldown(_)));
}

#[test]
fn a_projectile_message_names_source_and_target() {
    let mut bus = EffectBus::new();
    spawn_projectile_message(2, 7, ProjectileType::Ballista, &mut bus);
    let m = bus.messages()[0];
    assert_eq!(m.sender.map(|s| s.0), Some(2));
    assert_eq!(m.target.map(|t| t.0), Some(7));
    assert!(!m.handled);
}

#[test]
fn dropping_on_a_tile_asks_the_map_for_what_was_picked_up() {
    let mut bus = EffectBus::new();
    let on_tile = CursorState::OnTile(at(2, 3));
    send_build_tower_messages(
        true,
        &on_tile,
        &UIAction::BuildTower(TowerType::Tall),
        Some(9),
        &mut bus,
    );
    send_build_tower_messages(
        true,
        &on_tile,
        &UIAction::PlaceKnight(Knight::Banner),
        Some(9),
        &mut bus,
    );
    assert_eq!(bus.len(), 2);
    assert_eq!(bus.messages()[0].target.map(|t| t.0), Some(9));
    assert!(matches!(
        bus.messages()[0].payload,
        Payload::BuildTower(b) if b.location == at(2, 3) && b.t_type == TowerType::Tall
    ));
    assert!(matches!(
        bus.messages()[1].payload,
        Payload::PlaceKnight(p) if p.location == at(2, 3) && p.knight == Knight::Banner
    ));

    let build = UIAction::BuildTower(TowerType::Tall);
    send_build_tower_messages(false, &on_tile, &build, Some(9), &mut bus);
    send_build_tower_messages(true, &on_tile, &build, None, &mut bus);
    send_build_tower_messages(true, &CursorState::NoTarget, &build, Some(9), &mut bus);
    send_build_tower_messages(true, &on_tile, &UIAction::Idle, Some(9), &mut bus);
    assert_eq!(bus.len(), 2);
}

#[test]
fn what_was_picked_up_is_dropped_when_the_button_is_let_go() {
    let mut action = UIAction::BuildTower(TowerType::Short);
    reset_ui_action(&mut action, true);
    assert_eq!(action, UIAction::BuildTower(TowerType::Short));
    reset_ui_action(&mut action, false);
    assert_eq!(action, UIAction::Idle);
    reset_ui_action(&mut action, false);
    assert_eq!(action, UIAction::Idle);
}

#[test]
fn the_panel_hands_out_towers_and_ready_knights() {
    let statuses = KnightStatuses::new();
    let mut action = UIAction::Idle;
    pick_up_tower(&mut action, TowerType::Medium, false);
    assert_eq!(action, UIAction::Idle);
    pick_up_knight(&mut action, &statuses, Knight::Swole, true);
    assert_eq!(action, UIAction::Idle);
    pick_up_knight(&mut action, &statuses, Knight::Normal, true);
    assert_eq!(action, UIAction::PlaceKnight(Knight::Normal));
    pick_up_tower(&mut action, TowerType::Medium, true);
    assert_eq!(action, UIAction::PlaceKnight(Knight::Normal));
    action = UIAction::Idle;
    pick_up_tower(&mut action, TowerType::Medium, true);
    assert_eq!(action, UIAction::BuildTower(TowerType::Medium));
}

#[test]
fn the_reset_key_asks_for_a_new_start() {
    let mut bus = EffectBus::new();
    send_reset_message(false, &mut bus);
    assert_eq!(bus.len(), 0);
    send_reset_message(true, &mut bus);
    assert_eq!(bus.len(), 1);
    assert!(matches!(bus.messages()[0].payload, Payload::Reset(_)));
    assert!(bus.messages()[0].target.is_none());
}

#[test]
fn a_press_on_a_tile_selects_the_tower_there() {
    let mut towers = Vec::new();
    spawn_tower(&mut towers, at(1, 1), TowerType::Short);
    let mut selection = SelectionTarget(None);
    tower_selection(&mut selection, &CursorState::OnTile(at(1, 1)), false, &towers);
    assert_eq!(selection, SelectionTarget(None));
    tower_selection(&mut selection, &CursorState::OnTile(at(1, 1)), true, &towers);
    assert_eq!(selection, SelectionTarget(Some(0)));
    tower_selection(&mut selection, &CursorState::NoTarget, true, &towers);
    assert_eq!(selection, SelectionTarget(Some(0)));
    tower_selection(&mut selection, &CursorState::OnTile(at(0, 1)), true, &towers);
    assert_eq!(selection, SelectionTarget(None));
}

#[test]
fn the_sell_button_asks_for_the_selected_tower_to_be_sold() {
    let mut bus = EffectBus::new();
    send_sell_message(&SelectionTarget(Some(2)), false, &mut bus);
    send_sell_message(&SelectionTarget(None), true, &mut bus);
    assert_eq!(bus.len(), 0);
    send_sell_message(&SelectionTarget(Some(2)), true, &mut bus);
    assert_eq!(bus.len(), 1);
    assert_eq!(bus.messages()[0].target.map(|t| t.0), Some(2));
    assert!(matches!(bus.messages()[0].payload, Payload::Sell(_)));
}

#[test]
fn a_knight_who_arrives_is_ready_and_mans_his_tower() {
    let mut towers = Vec::new();
    spawn_tower(&mut towers, at(0, 0), TowerType::Short);
    let mut statuses = KnightStatuses::new();
    statuses.set_status(Knight::Lizard, KUsageStatus::Busy);
    let arrivals = vec![
        twelve_knights_vigil::building::Arrival {
            tower: 0,
            knight: Knight::Lizard,
        },
        twelve_knights_vigil::building::Arrival {
            tower: 4,
            knight: Knight::Banner,
        },
    ];
    twelve_knights_vigil::building::traveling_knights_arrive(&arrivals, &mut towers, &mut statuses);
    assert_eq!(towers[0].knight, Some(Knight::Lizard));
    assert_eq!(statuses.get_status(Knight::Lizard), KUsageStatus::Ready);
    assert_eq!(statuses.get_status(Knight::Banner), KUsageStatus::Ready);
    assert_eq!(towers.len(), 1);
}
