use twelve_knights_vigil::elements::{Element, ElementalAffliction};
use twelve_knights_vigil::gold::ChangeGold;
use twelve_knights_vigil::map::GridMap;
use twelve_knights_vigil::messages::{
    same_payload_kind, ApplyElementMessage, EffectBus, Message, Payload, PayloadKind, Sender,
    Target,
};

fn fire(amount: u32) -> ElementalAffliction {
    ElementalAffliction::single(Element::Fire, amount)
}

fn fire_on(map: &GridMap, idx: usize) -> u32 {
    map.affliction_at_index(idx)
        .unwrap()
        .get_element_amount(Element::Fire)
}

#[test]
fn a_new_bus_is_empty() {
    let bus = EffectBus::new();
    assert_eq!(bus.len(), 0);
    assert!(bus.messages().is_empty());
}

#[test]
fn sent_messages_wait_in_the_order_sent() {
    let mut bus = EffectBus::new();
    bus.send(Some(Sender(3)), Some(Target(1)), Payload::ApplyElement(fire(2)));
    bus.emit(ApplyElementMessage::single_element(Element::Water, 4, 7).into_message());
    assert_eq!(bus.len(), 2);
    let first = bus.messages()[0];
    assert_eq!(first.sender.map(|s| s.0), Some(3));
    assert_eq!(first.target.map(|t| t.0), Some(1));
    assert!(!first.handled);
    let second = bus.messages()[1];
    assert!(second.sender.is_none());
    assert_eq!(second.target.map(|t| t.0), Some(7));
    match second.payload {
        Payload::ApplyElement(a) => assert_eq!(a.get_element_amount(Element::Water), 4),
        _ => panic!("an element message was sent"),
    }
}

#[test]
fn three_sparks_on_one_tile_merge_into_one_message_of_three() {
    let mut bus = EffectBus::new();
    for _ in 0..3 {
        bus.emit(ApplyElementMessage::single_element(Element::Fire, 1, 5).into_message());
    }
    bus.consolidate();
    assert_eq!(bus.len(), 1);
    let merged = bus.messages()[0];
    assert_eq!(merged.target.map(|t| t.0), Some(5));
    match merged.payload {
        Payload::ApplyElement(a) => assert_eq!(a.get_element_amount(Element::Fire), 3),
        _ => panic!("the merged message adds fire"),
    }

    let mut map = GridMap::new((3, 3));
    let changed = bus.resolve(&mut map);
    assert_eq!(changed, vec![5]);
    assert_eq!(fire_on(&map, 5), 3);
    assert_eq!(bus.len(), 0);
}

#[test]
fn merging_keeps_tiles_and_directions_apart() {
    let mut bus = EffectBus::new();
    bus.send(None, Some(Target(0)), Payload::ApplyElement(fire(1)));
    bus.send(None, Some(Target(1)), Payload::ApplyElement(fire(2)));
    bus.send(None, Some(Target(0)), Payload::RemoveElement(fire(4)));
    bus.send(None, Some(Target(0)), Payload::ApplyElement(fire(8)));
    bus.send(None, None, Payload::ChangeGold(ChangeGold(5)));
    bus.send(None, Some(Target(0)), Payload::RemoveElement(fire(16)));
    bus.consolidate();
    assert_eq!(bus.len(), 4);
    let mut gold_messages = 0;
    for m in bus.messages() {
        match (m.target.map(|t| t.0), m.payload) {
            (Some(0), Payload::ApplyElement(a)) => {
                assert_eq!(a.get_element_amount(Element::Fire), 9)
            }
            (Some(1), Payload::ApplyElement(a)) => {
                assert_eq!(a.get_element_amount(Element::Fire), 2)
            }
            (Some(0), Payload::RemoveElement(a)) => {
                assert_eq!(a.get_element_amount(Element::Fire), 20)
            }
            (None, Payload::ChangeGold(c)) => {
                assert_eq!(c.0, 5);
                gold_messages += 1;
            }
            _ => panic!("no other message was sent"),
        }
    }
    assert_eq!(gold_messages, 1);
}

#[test]
fn removals_are_applied_before_additions() {
    let mut map = GridMap::new((2, 2));
    map.apply_affliction(0, &fire(5));
    let mut bus = EffectBus::new();
    bus.send(None, Some(Target(0)), Payload::ApplyElement(fire(3)));
    bus.send(None, Some(Target(0)), Payload::RemoveElement(fire(10)));
    let changed = bus.resolve(&mut map);
    assert_eq!(changed, vec![0]);
    assert_eq!(fire_on(&map, 0), 3);
    assert_eq!(bus.len(), 0);
}

#[test]
fn the_stages_can_be_run_one_by_one() {
    let mut map = GridMap::new((2, 1));
    map.apply_affliction(1, &fire(4));
    let mut bus = EffectBus::new();
    bus.send(None, Some(Target(1)), Payload::ApplyElement(fire(1)));
    bus.send(None, Some(Target(1)), Payload::RemoveElement(fire(3)));

    bus.apply_removals(&mut map);
    assert_eq!(fire_on(&map, 1), 1);
    assert!(!bus.messages()[0].handled);
    assert!(bus.messages()[1].handled);

    bus.apply_additions(&mut map);
    assert_eq!(fire_on(&map, 1), 2);
    assert!(bus.messages()[0].handled);

    bus.clear_handled_messages();
    assert_eq!(bus.len(), 0);
}

#[test]
fn a_message_for_a_tile_that_is_not_there_is_dropped_quietly() {
    let mut map = GridMap::new((2, 2));
    let mut bus = EffectBus::new();
    bus.send(None, Some(Target(99)), Payload::ApplyElement(fire(3)));
    bus.send(None, None, Payload::RemoveElement(fire(3)));
    let changed = bus.resolve(&mut map);
    assert!(changed.is_empty());
    assert_eq!(bus.len(), 0);
    for idx in 0..4 {
        assert_eq!(fire_on(&map, idx), 0);
    }
}

#[test]
fn resolving_on_a_map_without_tiles_does_nothing_but_reap() {
    let mut map = GridMap::empty();
    let mut bus = EffectBus::new();
    bus.send(None, Some(Target(0)), Payload::ApplyElement(fire(3)));
    bus.send(None, None, Payload::ChangeGold(ChangeGold(1)));
    let changed = bus.resolve(&mut map);
    assert!(changed.is_empty());
    assert_eq!(bus.len(), 1);
    assert!(matches!(bus.messages()[0].payload, Payload::ChangeGold(_)));
}

#[test]
fn other_messages_pass_through_a_cycle_untouched() {
    let mut map = GridMap::new((1, 1));
    let mut bus = EffectBus::new();
    bus.send(None, None, Payload::ChangeGold(ChangeGold(-3)));
    bus.send(None, Some(Target(0)), Payload::ApplyElement(fire(1)));
    bus.send(Some(Sender(2)), None, Payload::ChangeGold(ChangeGold(7)));
    bus.resolve(&mut map);
    assert_eq!(bus.len(), 2);
    let amounts: Vec<i32> = bus
        .messages()
        .iter()
        .map(|m| match m.payload {
            Payload::ChangeGold(c) => c.0,
            _ => 0,
        })
        .collect();
    assert_eq!(amounts, vec![-3, 7]);
    assert!(bus.messages().iter().all(|m| !m.handled));
}

#[test]
fn a_second_cycle_applies_nothing_twice() {
    let mut map = GridMap::new((1, 1));
    let mut bus = EffectBus::new();
    bus.send(None, Some(Target(0)), Payload::ApplyElement(fire(2)));
    bus.resolve(&mut map);
    let changed = bus.resolve(&mut map);
    assert!(changed.is_empty());
    assert_eq!(fire_on(&map, 0), 2);
}

#[test]
fn the_tiles_touched_are_listed_once_each() {
    let mut map = GridMap::new((3, 1));
    let mut bus = EffectBus::new();
    bus.send(None, Some(Target(2)), Payload::ApplyElement(fire(1)));
    bus.send(None, Some(Target(0)), Payload::RemoveElement(fire(1)));
    bus.send(None, Some(Target(2)), Payload::RemoveElement(fire(1)));
    bus.send(None, Some(Target(2)), Payload::ApplyElement(fire(1)));
    let mut changed = bus.resolve(&mut map);
    changed.sort();
    assert_eq!(changed, vec![0, 2]);
}

#[test]
fn handling_a_kind_takes_its_pending_messages_and_marks_them() {
    let mut bus = EffectBus::new();
    bus.send(None, None, Payload::ChangeGold(ChangeGold(1)));
    bus.send(None, Some(Target(0)), Payload::ApplyElement(fire(1)));
    bus.send(None, None, Payload::ChangeGold(ChangeGold(2)));
    bus.mark_handled(0);
    assert!(bus.has_pending(PayloadKind::ChangeGold));
    assert!(bus.has_pending(PayloadKind::ApplyElement));
    assert!(!bus.has_pending(PayloadKind::Heal));
    let taken = bus.handle_kind(PayloadKind::ChangeGold);
    assert!(!bus.has_pending(PayloadKind::ChangeGold));
    assert_eq!(taken.len(), 1);
    assert!(matches!(taken[0].payload, Payload::ChangeGold(ChangeGold(2))));
    assert_eq!(bus.len(), 3);
    assert!(bus.messages()[0].handled);
    assert!(!bus.messages()[1].handled);
    assert!(bus.messages()[2].handled);
    bus.clear_handled_messages();
    assert_eq!(bus.len(), 1);
    assert!(matches!(bus.messages()[0].payload, Payload::ApplyElement(_)));
}

#[test]
fn marking_a_message_that_is_not_there_changes_nothing() {
    let mut bus = EffectBus::new();
    bus.send(None, None, Payload::ChangeGold(ChangeGold(1)));
    bus.mark_handled(5);
    assert_eq!(bus.len(), 1);
    assert!(!bus.messages()[0].handled);
}

#[test]
fn payloads_know_their_kind() {
    assert_eq!(Payload::ApplyElement(fire(1)).kind(), PayloadKind::ApplyElement);
    assert_eq!(Payload::RemoveElement(fire(1)).kind(), PayloadKind::RemoveElement);
    assert_eq!(
        Payload::ChangeGold(ChangeGold(1)).kind(),
        PayloadKind::ChangeGold
    );
    assert!(same_payload_kind(PayloadKind::Heal, PayloadKind::Heal));
    assert!(!same_payload_kind(PayloadKind::Heal, PayloadKind::Harm));
}

#[test]
fn the_tiles_addressed_are_listed_in_the_order_first_met() {
    let mut bus = EffectBus::new();
    bus.send(None, Some(Target(2)), Payload::ApplyElement(fire(1)));
    bus.send(None, Some(Target(9)), Payload::ApplyElement(fire(1)));
    bus.send(None, Some(Target(0)), Payload::RemoveElement(fire(1)));
    bus.send(None, Some(Target(2)), Payload::RemoveElement(fire(1)));
    assert_eq!(bus.addressed_tiles(3), vec![2, 0]);
}

#[test]
fn a_handled_message_is_neither_merged_nor_applied() {
    let mut map = GridMap::new((1, 1));
    let mut bus = EffectBus::new();
    bus.emit(Message {
        sender: None,
        target: Some(Target(0)),
        payload: Payload::ApplyElement(fire(5)),
        handled: true,
    });
    bus.send(None, Some(Target(0)), Payload::ApplyElement(fire(1)));
    let changed = bus.resolve(&mut map);
    assert_eq!(changed, vec![0]);
    assert_eq!(fire_on(&map, 0), 1);
    assert_eq!(bus.len(), 0);
}
