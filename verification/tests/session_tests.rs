use twelve_knights_vigil::cheats::Cheats;
use twelve_knights_vigil::cooldown::{
    decrement_cooldowns, handle_cooldown_refresh_messages, spawn_cd_reset_message, Cooldown,
    ResetCooldown, CD_TICK_RATE,
};
use twelve_knights_vigil::gold::{
    change_gold, reset_gold, send_change_gold_message, send_reset_gold_message, Gold,
    BOTTOMLESS_GOLD, STARTING_GOLD,
};
use twelve_knights_vigil::health::{
    count_living, handle_harm_messages, handle_heal_messages, kill_dead_enemies, spawn_enemies,
    Harm, Heal,
    Health, ENEMY_HEALTH,
};
use twelve_knights_vigil::knights::{reset_knights, KUsageStatus, Knight, KnightStatuses};
use twelve_knights_vigil::life::{
    change_lives, reset_lives, send_change_lives_message, send_reset_lives_message, Lives,
    STARTING_LIVES,
};
use twelve_knights_vigil::messages::{EffectBus, Payload, Reset, Target};

fn honest() -> Cheats {
    Cheats::new(false, false)
}

#[test]
fn cheats_keep_their_switches() {
    let cheats = Cheats::new(true, false);
    assert!(cheats.infinite_lives);
    assert!(!cheats.infinite_money);
}

#[test]
fn health_starts_full_and_stays_within_its_bar() {
    let health = Health::new(10);
    assert_eq!(health.get_current(), 10);
    assert_eq!(health.get_max(), 10);
    assert!(!health.is_dead());
    let hurt = health.harmed(4);
    assert_eq!(hurt.get_current(), 6);
    assert_eq!(hurt.healed(3).get_current(), 9);
    assert_eq!(hurt.healed(300).get_current(), 10);
    assert_eq!(hurt.healed(u32::MAX).get_current(), 10);
    let dead = hurt.harmed(7);
    assert_eq!(dead.get_current(), 0);
    assert_eq!(dead.get_max(), 10);
    assert!(dead.is_dead());
}

#[test]
fn heals_and_harms_reach_their_targets() {
    let mut healths = vec![Health::new(10), Health::new(20).harmed(15)];
    let mut bus = EffectBus::new();
    bus.send(None, Some(Target(0)), Payload::Harm(Harm(3)));
    bus.send(None, Some(Target(1)), Payload::Heal(Heal(4)));
    bus.send(None, Some(Target(0)), Payload::Harm(Harm(2)));
    bus.send(None, Some(Target(7)), Payload::Harm(Harm(2)));
    bus.send(None, None, Payload::Heal(Heal(2)));

    handle_harm_messages(&mut bus, &mut healths);
    assert_eq!(healths[0].get_current(), 5);
    assert_eq!(healths[1].get_current(), 5);
    let handled: Vec<bool> = bus.messages().iter().map(|m| m.handled).collect();
    assert_eq!(handled, vec![true, false, true, true, false]);

    handle_heal_messages(&mut bus, &mut healths);
    assert_eq!(healths[0].get_current(), 5);
    assert_eq!(healths[1].get_current(), 9);
    assert!(bus.messages().iter().all(|m| m.handled));

    handle_harm_messages(&mut bus, &mut healths);
    assert_eq!(healths[0].get_current(), 5);
}

#[test]
fn the_dead_are_listed_by_their_place() {
    let healths = vec![
        Health::new(3).harmed(3),
        Health::new(3),
        Health::new(0),
        Health::new(5).harmed(9),
    ];
    assert_eq!(kill_dead_enemies(&healths), vec![0, 2, 3]);
    assert_eq!(count_living(&healths), 1);
    assert!(kill_dead_enemies(&Vec::new()).is_empty());
}

#[test]
fn an_enemy_arrives_when_the_timer_runs_out_on_a_loaded_map() {
    let mut healths = vec![Health::new(1)];
    assert_eq!(spawn_enemies(false, true, &mut healths), None);
    assert_eq!(spawn_enemies(true, false, &mut healths), None);
    assert_eq!(healths.len(), 1);
    assert_eq!(spawn_enemies(true, true, &mut healths), Some(1));
    assert_eq!(healths.len(), 2);
    assert_eq!(healths[1].get_current(), ENEMY_HEALTH);
    assert_eq!(healths[1].get_max(), 10);
}

#[test]
fn the_purse_is_reset_on_request_only() {
    let mut bus = EffectBus::new();
    let mut gold = Gold(7);
    reset_gold(&mut bus, &mut gold, &honest());
    assert_eq!(gold.get(), 7);
    send_reset_gold_message(&mut bus);
    reset_gold(&mut bus, &mut gold, &honest());
    assert_eq!(gold.get(), STARTING_GOLD);
    assert_eq!(gold.get(), 200);
    assert!(bus.messages()[0].handled);

    gold = Gold(7);
    reset_gold(&mut bus, &mut gold, &honest());
    assert_eq!(gold.get(), 7);

    send_reset_gold_message(&mut bus);
    reset_gold(&mut bus, &mut gold, &Cheats::new(false, true));
    assert_eq!(gold.get(), BOTTOMLESS_GOLD);
    assert_eq!(gold.get(), 999999);
}

#[test]
fn the_purse_changes_by_what_is_asked_and_never_drops_below_nothing() {
    let mut bus = EffectBus::new();
    let mut gold = Gold(200);
    send_change_gold_message(&mut bus, -150);
    send_change_gold_message(&mut bus, 20);
    change_gold(&mut bus, &mut gold, &honest());
    assert_eq!(gold.get(), 70);
    assert!(bus.messages().iter().all(|m| m.handled));

    send_change_gold_message(&mut bus, -100);
    send_change_gold_message(&mut bus, 5);
    change_gold(&mut bus, &mut gold, &honest());
    assert_eq!(gold.get(), 5);

    send_change_gold_message(&mut bus, i32::MAX);
    send_change_gold_message(&mut bus, i32::MAX);
    change_gold(&mut bus, &mut gold, &honest());
    assert_eq!(gold.get(), i32::MAX);
}

#[test]
fn a_bottomless_purse_ignores_changes() {
    let mut bus = EffectBus::new();
    let mut gold = Gold(BOTTOMLESS_GOLD);
    send_change_gold_message(&mut bus, -150);
    change_gold(&mut bus, &mut gold, &Cheats::new(false, true));
    assert_eq!(gold.get(), BOTTOMLESS_GOLD);
    assert!(bus.messages()[0].handled);
}

#[test]
fn lives_are_reset_on_request_only() {
    let mut bus = EffectBus::new();
    let mut lives = Lives(2);
    reset_lives(&mut bus, &mut lives);
    assert_eq!(lives.get(), 2);
    send_reset_lives_message(&mut bus);
    reset_lives(&mut bus, &mut lives);
    assert_eq!(lives.get(), STARTING_LIVES);
    assert_eq!(lives.get(), 10);
}

#[test]
fn every_change_that_leaves_no_life_raises_the_alarm() {
    let mut bus = EffectBus::new();
    let mut lives = Lives(2);
    send_change_lives_message(&mut bus, -1);
    send_change_lives_message(&mut bus, -1);
    send_change_lives_message(&mut bus, -1);
    send_change_lives_message(&mut bus, 5);
    change_lives(&mut bus, &mut lives);
    assert_eq!(lives.get(), 4);
    assert_eq!(bus.len(), 6);
    let alarms = bus
        .messages()
        .iter()
        .filter(|m| matches!(m.payload, Payload::OutOfLives(_)) && !m.handled)
        .count();
    assert_eq!(alarms, 2);
    assert!(bus.messages()[..4].iter().all(|m| m.handled));
}

#[test]
fn a_change_that_leaves_a_life_raises_no_alarm() {
    let mut bus = EffectBus::new();
    let mut lives = Lives(10);
    send_change_lives_message(&mut bus, -9);
    change_lives(&mut bus, &mut lives);
    assert_eq!(lives.get(), 1);
    assert_eq!(bus.len(), 1);
}

#[test]
fn a_cooldown_counts_down_and_can_be_reset() {
    let mut cd = Cooldown::from_millis(100);
    assert_eq!(cd.get_max(), 100);
    assert_eq!(cd.get_current(), 100);
    assert!(!cd.is_ready());
    cd.progress_milliseconds(60);
    assert_eq!(cd.get_current(), 40);
    cd.progress_milliseconds(60);
    assert_eq!(cd.get_current(), -20);
    assert!(cd.is_ready());
    cd.refill();
    assert_eq!(cd.get_current(), 80);
    cd.reset();
    assert_eq!(cd.get_current(), 100);
    cd.progress_milliseconds(100);
    assert!(cd.is_ready());
    assert_eq!(cd.get_current(), 0);
}

#[test]
fn a_cooldown_holds_at_the_ends_of_its_range() {
    let mut cd = Cooldown::from_millis(i32::MAX);
    cd.refill();
    assert_eq!(cd.get_current(), i32::MAX);
    let mut low = Cooldown::from_millis(i32::MIN);
    low.progress_milliseconds(i32::MAX);
    assert_eq!(low.get_current(), i32::MIN);
}

#[test]
fn a_new_length_keeps_what_is_left_within_it() {
    let mut cd = Cooldown::from_millis(1000);
    cd.progress_milliseconds(300);
    assert_eq!(cd.with_new_length_millis(2000).get_current(), 700);
    assert_eq!(cd.with_new_length_millis(2000).get_max(), 2000);
    assert_eq!(cd.with_new_length_millis(500).get_current(), 500);
    cd.progress_milliseconds(900);
    assert_eq!(cd.with_new_length_millis(500).get_current(), 0);
}

#[test]
fn a_tick_advances_only_the_cooldowns_that_wait() {
    let mut ready = Cooldown::from_millis(50);
    ready.progress_milliseconds(70);
    let mut cooldowns = vec![Cooldown::from_millis(100), ready, Cooldown::from_millis(10)];
    decrement_cooldowns(&mut cooldowns);
    assert_eq!(CD_TICK_RATE, 15);
    assert_eq!(cooldowns[0].get_current(), 85);
    assert_eq!(cooldowns[1].get_current(), -20);
    assert_eq!(cooldowns[2].get_current(), -5);
    assert_eq!(cooldowns[2].get_max(), 10);
}

#[test]
fn a_reset_message_refills_the_cooldown_of_its_target() {
    let mut spent = Cooldown::from_millis(100);
    spent.progress_milliseconds(105);
    let mut cooldowns = vec![spent, Cooldown::from_millis(30)];
    let mut bus = EffectBus::new();
    spawn_cd_reset_message(0, &mut bus);
    spawn_cd_reset_message(5, &mut bus);
    bus.send(None, None, Payload::ResetCooldown(ResetCooldown));
    handle_cooldown_refresh_messages(&mut bus, &mut cooldowns);
    assert_eq!(cooldowns[0].get_current(), 95);
    assert_eq!(cooldowns[1].get_current(), 30);
    assert!(bus.messages().iter().all(|m| m.handled));
    assert_eq!(bus.messages()[0].target.map(|t| t.0), Some(0));
}

#[test]
fn knights_have_names_and_a_status() {
    assert_eq!(Knight::Normal.get_name(), "Alright Knight");
    assert_eq!(Knight::Swole.get_name(), "Swole Knight");
    assert_eq!(Knight::Lizard.get_name(), "Lizard Knight");
    assert_eq!(Knight::Banner.get_name(), "Banner Knight");
    assert_eq!(Knight::Dungeon.get_name(), "Dungeon Knight");
    assert_eq!(Knight::Samurai.get_name(), "The Knight with No Name");

    let mut statuses = KnightStatuses::new();
    assert_eq!(statuses.get_status(Knight::Normal), KUsageStatus::Ready);
    for knight in [
        Knight::Swole,
        Knight::Lizard,
        Knight::Banner,
        Knight::Dungeon,
        Knight::Samurai,
    ] {
        assert_eq!(statuses.get_status(knight), KUsageStatus::Locked);
    }
    statuses.set_status(Knight::Samurai, KUsageStatus::Busy);
    assert_eq!(statuses.get_status(Knight::Samurai), KUsageStatus::Busy);
    assert_eq!(statuses.get_status(Knight::Dungeon), KUsageStatus::Locked);
    assert_eq!(statuses.get_status(Knight::Normal), KUsageStatus::Ready);
}

#[test]
fn a_reset_sets_the_knights_back() {
    let mut statuses = KnightStatuses::new();
    statuses.set_status(Knight::Normal, KUsageStatus::Busy);
    statuses.set_status(Knight::Swole, KUsageStatus::Ready);
    let mut bus = EffectBus::new();
    reset_knights(&mut bus, &mut statuses);
    assert_eq!(statuses.get_status(Knight::Normal), KUsageStatus::Busy);
    bus.send(None, None, Payload::Reset(Reset));
    reset_knights(&mut bus, &mut statuses);
    assert_eq!(statuses.get_status(Knight::Normal), KUsageStatus::Ready);
    assert_eq!(statuses.get_status(Knight::Swole), KUsageStatus::Locked);
    assert!(bus.messages()[0].handled);
}
