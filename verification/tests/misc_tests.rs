use twelve_knights_vigil::arith::hold;
use twelve_knights_vigil::elements::Element;
use twelve_knights_vigil::gamestate::{main_menu_choice, on_escape, GameState, MenuChoice, Transition};
use twelve_knights_vigil::helpers::Coordinate;
use twelve_knights_vigil::input::CursorState;
use twelve_knights_vigil::map::GridMap;
use twelve_knights_vigil::messages::{EffectBus, Payload};
use twelve_knights_vigil::sandbox::{use_tool, SandboxControlState, Tool, IGNITION_FUEL};
use twelve_knights_vigil::system_alerts::{
    create_system_alert_message, SystemAlerts, ALERT_TIME_MS, MAX_DISPLAYED_ALERTS,
};
use twelve_knights_vigil::text::decimal_text;
use twelve_knights_vigil::tile::TileType;
use twelve_knights_vigil::waves::{
    begin_wave, end_wave, initialize_wave_data, initialize_wavestate, WaveInfo, WaveState,
};

fn at(x: usize, y: usize) -> Coordinate {
    Coordinate::from((x, y))
}

#[test]
fn numbers_are_held_within_the_range_of_an_i32() {
    assert_eq!(hold(5), 5);
    assert_eq!(hold(-5), -5);
    assert_eq!(hold(i32::MAX as i64 + 1), i32::MAX);
    assert_eq!(hold(i32::MIN as i64 - 1), i32::MIN);
    assert_eq!(hold(i64::MAX), i32::MAX);
    assert_eq!(hold(i64::MIN), i32::MIN);
}

#[test]
fn numbers_are_written_in_decimal() {
    assert_eq!(decimal_text(0), "0");
    assert_eq!(decimal_text(7), "7");
    assert_eq!(decimal_text(10), "10");
    assert_eq!(decimal_text(1234567890), "1234567890");
    assert_eq!(decimal_text(usize::MAX), usize::MAX.to_string());
}

#[test]
fn distances_count_steps_along_the_axes() {
    assert_eq!(at(1, 1).distance(&at(4, 5)), 7);
    assert_eq!(at(4, 5).distance(&at(1, 1)), 7);
    assert_eq!(at(2, 2).distance(&at(2, 2)), 0);
    assert_eq!(at(0, 9).checked_distance(&at(3, 0)), Some(12));
    assert_eq!(
        at(0, 0).checked_distance(&at(usize::MAX, usize::MAX)),
        None
    );
    assert_eq!(at(1, 2) + at(3, 4), at(4, 6));
}

#[test]
fn the_neighbours_of_a_cell_are_listed_east_south_west_north() {
    assert_eq!(
        at(1, 1).cardinals(),
        vec![at(2, 1), at(1, 2), at(0, 1), at(1, 0)]
    );
    assert_eq!(at(0, 0).cardinals(), vec![at(1, 0), at(0, 1)]);
    assert_eq!(
        at(usize::MAX, usize::MAX).cardinals(),
        vec![at(usize::MAX - 1, usize::MAX), at(usize::MAX, usize::MAX - 1)]
    );
}

#[test]
fn alerts_queue_up_to_the_limit_and_the_oldest_goes_first() {
    let mut alerts = SystemAlerts::new();
    assert_eq!(alerts.len(), 0);
    assert!(alerts.get(0).is_none());
    for i in 0..10 {
        create_system_alert_message(&mut alerts, &format!("alert {i}"));
    }
    assert_eq!(MAX_DISPLAYED_ALERTS, 8);
    assert_eq!(alerts.len(), 8);
    assert_eq!(alerts.get(0).unwrap().text, "alert 2");
    assert_eq!(alerts.get(7).unwrap().text, "alert 9");
    assert_eq!(alerts.get(7).unwrap().left, ALERT_TIME_MS);
    assert!(alerts.get(8).is_none());
}

#[test]
fn alerts_age_and_leave_when_their_time_is_up() {
    let mut alerts = SystemAlerts::new();
    create_system_alert_message(&mut alerts, "first");
    alerts.age(400);
    create_system_alert_message(&mut alerts, "second");
    alerts.age(599);
    assert_eq!(alerts.len(), 2);
    assert_eq!(alerts.get(0).unwrap().left, 1);
    assert_eq!(alerts.get(1).unwrap().left, 401);
    alerts.age(1);
    assert_eq!(alerts.len(), 1);
    assert_eq!(alerts.get(0).unwrap().text, "second");
    assert_eq!(alerts.get(0).unwrap().left, 400);
    alerts.age(u64::MAX);
    assert_eq!(alerts.len(), 0);
}

#[test]
fn a_session_starts_in_preparation_and_a_wave_has_five_to_fourteen_enemies() {
    assert_eq!(initialize_wavestate(), WaveState::Preparation);
    let mut seen = std::collections::BTreeSet::new();
    for _ in 0..500 {
        let wave = initialize_wave_data();
        assert!((5..15).contains(&wave.remaining_enemies_to_spawn));
        seen.insert(wave.remaining_enemies_to_spawn);
    }
    assert!(seen.len() > 1);
}

#[test]
fn a_wave_ends_when_nobody_is_left() {
    let done = WaveInfo {
        remaining_enemies_to_spawn: 0,
    };
    let busy = WaveInfo {
        remaining_enemies_to_spawn: 1,
    };
    assert_eq!(end_wave(&done, 0), Some(WaveState::Preparation));
    assert_eq!(end_wave(&done, 2), None);
    assert_eq!(end_wave(&busy, 0), None);
    assert_eq!(
        end_wave(
            &WaveInfo {
                remaining_enemies_to_spawn: -3
            },
            0
        ),
        Some(WaveState::Preparation)
    );
    assert_eq!(
        begin_wave(WaveState::Preparation, true),
        Some(WaveState::WaveInProgress)
    );
    assert_eq!(begin_wave(WaveState::Preparation, false), None);
    assert_eq!(begin_wave(WaveState::WaveInProgress, true), None);
}

#[test]
fn the_menu_leads_into_a_session_and_escape_leads_back() {
    assert_eq!(
        main_menu_choice(MenuChoice::Play),
        Transition::Enter(GameState::TDMode)
    );
    assert_eq!(main_menu_choice(MenuChoice::Quit), Transition::Exit);
    assert_eq!(
        on_escape(GameState::TDMode, true),
        Transition::Enter(GameState::MainMenu)
    );
    assert_eq!(on_escape(GameState::TDMode, false), Transition::Stay);
    assert_eq!(on_escape(GameState::MainMenu, true), Transition::Stay);
}

#[test]
fn the_editor_starts_with_the_select_tool() {
    let state = SandboxControlState::new();
    assert_eq!(state.new_dimensions, (8, 8));
    assert_eq!(state.current_tool, Tool::Select);
    assert_eq!(state.selected_tile, None);
}

#[test]
fn the_select_tool_selects_on_the_press() {
    let mut map = GridMap::new((3, 3));
    let mut bus = EffectBus::new();
    let mut state = SandboxControlState::new();
    let cursor = CursorState::OnTile(at(2, 1));
    use_tool(true, false, &cursor, 0, &mut state, &mut map, &mut bus);
    assert_eq!(state.selected_tile, None);
    use_tool(true, true, &cursor, 0, &mut state, &mut map, &mut bus);
    assert_eq!(state.selected_tile, Some(5));
    use_tool(false, true, &CursorState::OnTile(at(0, 0)), 0, &mut state, &mut map, &mut bus);
    use_tool(true, true, &CursorState::NoTarget, 0, &mut state, &mut map, &mut bus);
    use_tool(true, true, &CursorState::OnTile(at(3, 3)), 0, &mut state, &mut map, &mut bus);
    assert_eq!(state.selected_tile, Some(5));
    assert_eq!(bus.len(), 0);
    assert!(map.dirty_tiles().is_empty());
}

#[test]
fn the_brush_paints_and_gives_new_fire_its_fuel() {
    let mut map = GridMap::new((3, 3));
    let mut bus = EffectBus::new();
    let mut state = SandboxControlState::new();
    state.current_tool = Tool::TileBrush(TileType::Fire);
    let cursor = CursorState::OnTile(at(1, 1));

    use_tool(true, true, &cursor, 0, &mut state, &mut map, &mut bus);
    assert_eq!(map.tile_type_at_index(4), Some(&TileType::Fire));
    assert_eq!(map.dirty_tiles(), &vec![4]);
    assert_eq!(bus.len(), 1);
    assert_eq!(bus.messages()[0].target.map(|t| t.0), Some(4));
    match bus.messages()[0].payload {
        Payload::ApplyElement(a) => {
            assert_eq!(a.get_element_amount(Element::Fire), IGNITION_FUEL);
            assert_eq!(IGNITION_FUEL, 100);
        }
        _ => panic!("fire is sent its fuel"),
    }

    use_tool(true, false, &cursor, 0, &mut state, &mut map, &mut bus);
    assert_eq!(bus.len(), 1);
    assert_eq!(map.dirty_tiles(), &vec![4, 4]);

    state.current_tool = Tool::TileBrush(TileType::Water);
    use_tool(true, false, &cursor, 0, &mut state, &mut map, &mut bus);
    assert_eq!(map.tile_type_at_index(4), Some(&TileType::Water));
    assert_eq!(bus.len(), 1);
}

#[test]
fn the_applicator_sends_its_stacks() {
    let mut map = GridMap::new((2, 2));
    let mut bus = EffectBus::new();
    let mut state = SandboxControlState::new();
    state.current_tool = Tool::ElementApplicator(Element::Water);
    let cursor = CursorState::OnTile(at(1, 1));
    use_tool(true, false, &cursor, 0, &mut state, &mut map, &mut bus);
    assert_eq!(bus.len(), 0);
    use_tool(true, false, &cursor, 2, &mut state, &mut map, &mut bus);
    assert_eq!(bus.len(), 1);
    assert_eq!(bus.messages()[0].target.map(|t| t.0), Some(3));
    match bus.messages()[0].payload {
        Payload::ApplyElement(a) => assert_eq!(a.get_element_amount(Element::Water), 2),
        _ => panic!("the applicator adds its element"),
    }
    bus.resolve(&mut map);
    assert_eq!(
        map.affliction_at_index(3)
            .unwrap()
            .get_element_amount(Element::Water),
        2
    );
}

#[test]
fn a_fixed_clock_hands_out_whole_steps_and_saves_the_rest() {
    let mut clock = twelve_knights_vigil::clock::FixedClock::new(15);
    assert_eq!(clock.advance(14), 0);
    assert_eq!(clock.advance(1), 1);
    assert_eq!(clock.advance(40), 2);
    assert_eq!(clock.advance(5), 1);
    assert_eq!(clock.advance(0), 0);
    assert_eq!(clock.advance(u64::MAX), u64::MAX / 15);
}
