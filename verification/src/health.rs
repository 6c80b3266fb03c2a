//! Health of enemies, and the messages that heal and harm them.

use crate::messages::after_handling;
use crate::messages::wanted;
use crate::messages::EffectBus;
use crate::messages::Message;
use crate::messages::Payload;
use crate::messages::PayloadKind;
use vstd::prelude::*;

verus! {

/// Hit points: what is left and what a full bar holds.
#[derive(Clone, Copy, Debug, PartialEq, Eq, Structural)]
pub struct Health {
    current: u32,
    max: u32,
}

/// A request to restore hit points.
#[derive(Clone, Copy, Debug, PartialEq, Eq, Structural)]
pub struct Heal(pub u32);

/// A request to take hit points away.
#[derive(Clone, Copy, Debug, PartialEq, Eq, Structural)]
pub struct Harm(pub u32);

/// The smaller of two numbers.
pub open spec fn least(a: int, b: int) -> int {
    if a <= b {
        a
    } else {
        b
    }
}

impl Health {
    /// The hit points left.
    pub closed spec fn current(&self) -> nat {
        self.current as nat
    }

    /// The hit points of a full bar.
    pub closed spec fn max(&self) -> nat {
        self.max as nat
    }

    /// Two healths with the same numbers are the same.
    pub proof fn lemma_same(a: Health, b: Health)
        requires
            a.current() == b.current(),
            a.max() == b.max(),
        ensures
            a == b,
    {
    }

    /// The health with `current` of `max` hit points, as a value to reason
    /// about.
    pub closed spec fn with(current: u32, max: u32) -> Health {
        Health { current, max }
    }

    /// What `with` builds.
    pub proof fn lemma_with(current: u32, max: u32)
        ensures
            Self::with(current, max).current() == current,
            Self::with(current, max).max() == max,
    {
    }

    /// The health after `amount` was restored: never more than a full bar.
    pub open spec fn after_heal(self, amount: u32) -> Health {
        Self::with(least(self.current() + amount, self.max() as int) as u32, self.max() as u32)
    }

    /// The health after `amount` was taken: never less than nothing.
    pub open spec fn after_harm(self, amount: u32) -> Health {
        Self::with(
            if self.current() >= amount {
                (self.current() - amount) as u32
            } else {
                0
            },
            self.max() as u32,
        )
    }

    /// A full bar of `max` hit points.
    pub fn new(max: u32) -> (h: Self)
        ensures
            h == Self::with(max, max),
            h.current() == max,
            h.max() == max,
    {
        Self { current: max, max }
    }

    /// The hit points left.
    pub fn get_current(&self) -> (r: u32)
        ensures
            r == self.current(),
    {
        self.current
    }

    /// The hit points of a full bar.
    pub fn get_max(&self) -> (r: u32)
        ensures
            r == self.max(),
    {
        self.max
    }

    /// This health with `amount` restored, up to a full bar at most.
    pub fn healed(&self, amount: u32) -> (h: Self)
        ensures
            h == self.after_heal(amount),
            h.current() == least(self.current() + amount, self.max() as int),
            h.max() == self.max(),
    {
        let sum = self.current.saturating_add(amount);
        let current = if sum <= self.max {
            sum
        } else {
            self.max
        };
        Self { current, max: self.max }
    }

    /// This health with `amount` taken, down to nothing at most.
    pub fn harmed(&self, amount: u32) -> (h: Self)
        ensures
            h == self.after_harm(amount),
            h.current() == (if self.current() >= amount {
                self.current() - amount
            } else {
                0
            }),
            h.max() == self.max(),
    {
        Self { current: self.current.saturating_sub(amount), max: self.max }
    }

    /// Whether no hit points are left.
    pub fn is_dead(&self) -> (r: bool)
        ensures
            r == (self.current() == 0),
    {
        self.current == 0
    }
}

/// The healths after one message: the target is healed or harmed by what
/// the message carries. A message without a target, or meant for an enemy
/// that is not there, changes nothing.
pub open spec fn struck(healths: Seq<Health>, m: Message) -> Seq<Health> {
    match m.target {
        Some(t) => if t.0 < healths.len() {
            match m.payload {
                Payload::Heal(h) => healths.update(t.0 as int, healths[t.0 as int].after_heal(h.0)),
                Payload::Harm(h) => healths.update(t.0 as int, healths[t.0 as int].after_harm(h.0)),
                _ => healths,
            }
        } else {
            healths
        },
        None => healths,
    }
}

/// The healths after the first `n` of the messages, one after the other.
pub open spec fn after_strikes(healths: Seq<Health>, msgs: Seq<Message>, n: nat) -> Seq<Health>
    decreases n,
{
    if n == 0 {
        healths
    } else {
        struck(after_strikes(healths, msgs, (n - 1) as nat), msgs[n - 1])
    }
}

fn apply_strikes(healths: &mut Vec<Health>, taken: &Vec<Message>)
    ensures
        final(healths)@ == after_strikes(old(healths)@, taken@, taken@.len()),
{
    let mut i: usize = 0;
    while i < taken.len()
        invariant
            i <= taken@.len(),
            healths@ == after_strikes(old(healths)@, taken@, i as nat),
        decreases taken@.len() - i,
    {
        let m = taken[i];
        match m.target {
            Some(t) => {
                if t.0 < healths.len() {
                    let health = healths[t.0];
                    match m.payload {
                        Payload::Heal(h) => {
                            healths.set(t.0, health.healed(h.0));
                        },
                        Payload::Harm(h) => {
                            healths.set(t.0, health.harmed(h.0));
                        },
                        _ => {},
                    }
                }
            },
            None => {},
        }
        i += 1;
    }
}

/// Resolves the pending heals, oldest first: each restores hit points of
/// its target, up to a full bar, and is marked as handled whether or not
/// its target is there.
pub fn handle_heal_messages(bus: &mut EffectBus, healths: &mut Vec<Health>)
    ensures
        final(bus)@ == after_handling(old(bus)@, PayloadKind::Heal),
        final(healths)@ == after_strikes(
            old(healths)@,
            old(bus)@.filter(wanted(PayloadKind::Heal)),
            old(bus)@.filter(wanted(PayloadKind::Heal)).len(),
        ),
{
    let taken = bus.handle_kind(PayloadKind::Heal);
    apply_strikes(healths, &taken);
}

/// Resolves the pending harms, oldest first: each takes hit points from its
/// target, down to nothing, and is marked as handled whether or not its
/// target is there.
pub fn handle_harm_messages(bus: &mut EffectBus, healths: &mut Vec<Health>)
    ensures
        final(bus)@ == after_handling(old(bus)@, PayloadKind::Harm),
        final(healths)@ == after_strikes(
            old(healths)@,
            old(bus)@.filter(wanted(PayloadKind::Harm)),
            old(bus)@.filter(wanted(PayloadKind::Harm)).len(),
        ),
{
    let taken = bus.handle_kind(PayloadKind::Harm);
    apply_strikes(healths, &taken);
}

/// The places among the first `n` enemies of those that have no hit points
/// left, in rising order.
pub open spec fn dead_among(healths: Seq<Health>, n: nat) -> Seq<usize>
    decreases n,
{
    if n == 0 {
        seq![]
    } else if healths[n - 1].current() == 0 {
        dead_among(healths, (n - 1) as nat).push((n - 1) as usize)
    } else {
        dead_among(healths, (n - 1) as nat)
    }
}

/// Lists the enemies that are to be taken off the field: those without hit
/// points, by their place, in rising order.
pub fn kill_dead_enemies(healths: &Vec<Health>) -> (dead: Vec<usize>)
    ensures
        dead@ == dead_among(healths@, healths@.len()),
{
    let mut dead: Vec<usize> = Vec::new();
    let mut i: usize = 0;
    while i < healths.len()
        invariant
            i <= healths@.len(),
            dead@ == dead_among(healths@, i as nat),
        decreases healths@.len() - i,
    {
        if healths[i].is_dead() {
            dead.push(i);
        }
        i += 1;
    }
    dead
}


/// The hit points an enemy enters the field with.
pub const ENEMY_HEALTH: u32 = 10;

/// Puts a new enemy on the field when the spawn timer has just run out and
/// a map is loaded. The enemy joins at the end of the list with a full bar;
/// the result is its place. Otherwise nothing happens.
pub fn spawn_enemies(map_loaded: bool, timer_just_finished: bool, healths: &mut Vec<Health>) -> (spawned:
    Option<usize>)
    ensures
        map_loaded && timer_just_finished ==> spawned == Some(old(healths)@.len() as usize)
            && final(healths)@ == old(healths)@.push(Health::with(ENEMY_HEALTH, ENEMY_HEALTH)),
        !(map_loaded && timer_just_finished) ==> spawned is None && final(healths)@ == old(
            healths,
        )@,
{
    if map_loaded && timer_just_finished {
        let place = healths.len();
        healths.push(Health::new(ENEMY_HEALTH));
        Some(place)
    } else {
        None
    }
}


/// How many of the first `n` enemies have hit points left.
pub open spec fn living_among(healths: Seq<Health>, n: nat) -> nat
    decreases n,
{
    if n == 0 {
        0
    } else {
        living_among(healths, (n - 1) as nat) + if healths[n - 1].current() > 0 {
            1nat
        } else {
            0nat
        }
    }
}

proof fn lemma_living_bound(healths: Seq<Health>, n: nat)
    ensures
        living_among(healths, n) <= n,
    decreases n,
{
    if n > 0 {
        lemma_living_bound(healths, (n - 1) as nat);
    }
}

/// Counts the enemies that have hit points left.
pub fn count_living(healths: &Vec<Health>) -> (n: usize)
    ensures
        n == living_among(healths@, healths@.len()),
{
    let mut n: usize = 0;
    let mut i: usize = 0;
    while i < healths.len()
        invariant
            i <= healths@.len(),
            n == living_among(healths@, i as nat),
            n <= i,
        decreases healths@.len() - i,
    {
        proof {
            lemma_living_bound(healths@, i as nat);
        }
        if !healths[i].is_dead() {
            n += 1;
        }
        i += 1;
    }
    n
}

} // verus!
