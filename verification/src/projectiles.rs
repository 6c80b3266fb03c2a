//! Projectiles: how many fly, how long they last, and what a hit does.

use crate::health::Harm;
use crate::messages::request;
use crate::messages::EffectBus;
use crate::messages::Payload;
use crate::messages::Target;
use crate::random::random_in_range;
use crate::towers::Damage;
use vstd::prelude::*;

verus! {

/// The length of a step of the projectiles' clock, in milliseconds.
pub const FIXED_STAGE_MS: u64 = 16;

/// How many projectiles a weapon launches at once.
#[derive(Clone, Copy, Debug, PartialEq, Eq, Structural)]
pub struct Multishot(pub i32);

/// How many projectiles a launch brings: one from a plain weapon, and from
/// a weapon with multishot as many as it says, none where that is less
/// than one.
pub fn projectile_count(multishot: Option<Multishot>) -> (n: u32)
    ensures
        n == (match multishot {
            None => 1int,
            Some(m) => if m.0 < 0 {
                0int
            } else {
                m.0 as int
            },
        }),
{
    match multishot {
        None => 1,
        Some(m) => if m.0 < 0 {
            0
        } else {
            m.0 as u32
        },
    }
}

/// What is left of a lifetime after one step of the clock.
pub open spec fn shortened(left: u64) -> u64 {
    if left > FIXED_STAGE_MS {
        (left - FIXED_STAGE_MS) as u64
    } else {
        0
    }
}

/// The places among the first `n` projectiles of those whose time is up
/// after one more step of the clock, in rising order.
pub open spec fn spent_among(lifetimes: Seq<u64>, n: nat) -> Seq<usize>
    decreases n,
{
    if n == 0 {
        seq![]
    } else if shortened(lifetimes[n - 1]) == 0 {
        spent_among(lifetimes, (n - 1) as nat).push((n - 1) as usize)
    } else {
        spent_among(lifetimes, (n - 1) as nat)
    }
}

/// Lets one step of the clock pass for every projectile. The result lists
/// the projectiles whose time is up, by their place, in rising order;
/// their lifetimes are left at nothing.
pub fn progress_projectile_lifespans(lifetimes: &mut Vec<u64>) -> (spent: Vec<usize>)
    ensures
        final(lifetimes)@.len() == old(lifetimes)@.len(),
        forall|i: int|
            0 <= i < old(lifetimes)@.len() ==> #[trigger] final(lifetimes)@[i] == shortened(
                old(lifetimes)@[i],
            ),
        spent@ == spent_among(old(lifetimes)@, old(lifetimes)@.len()),
{
    let mut spent: Vec<usize> = Vec::new();
    let mut i: usize = 0;
    while i < lifetimes.len()
        invariant
            i <= lifetimes@.len(),
            lifetimes@.len() == old(lifetimes)@.len(),
            forall|k: int| 0 <= k < i ==> #[trigger] lifetimes@[k] == shortened(old(lifetimes)@[k]),
            forall|k: int| i <= k < lifetimes@.len() ==> lifetimes@[k] == old(lifetimes)@[k],
            spent@ == spent_among(old(lifetimes)@, i as nat),
        decreases lifetimes@.len() - i,
    {
        let left = lifetimes[i].saturating_sub(FIXED_STAGE_MS);
        lifetimes.set(i, left);
        if left == 0 {
            spent.push(i);
        }
        i += 1;
    }
    spent
}

/// How long a projectile stays where it has struck, in milliseconds: two
/// to five full seconds, drawn by chance.
pub fn lodged_lifetime() -> (ms: u64)
    ensures
        ms == 2000 || ms == 3000 || ms == 4000 || ms == 5000,
{
    let seconds = random_in_range(2, 6);
    (seconds as u64) * 1000
}

/// Tells the enemy at `target` that it was hit for `damage`.
pub fn report_hit(target: usize, damage: Damage, bus: &mut EffectBus)
    ensures
        final(bus)@ == old(bus)@.push(request(target, Payload::Harm(Harm(damage.0)))),
{
    bus.send(None, Some(Target(target)), Payload::Harm(Harm(damage.0)));
}

} // verus!
