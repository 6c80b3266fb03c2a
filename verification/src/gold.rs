//! Gold: what the player pays towers with.

use crate::arith::held;
use crate::arith::hold;
use crate::cheats::Cheats;
use crate::messages::after_handling;
use crate::messages::notice;
use crate::messages::wanted;
use crate::messages::EffectBus;
use crate::messages::Message;
use crate::messages::Payload;
use crate::messages::PayloadKind;
use vstd::prelude::*;

verus! {

/// The gold a session starts with.
pub const STARTING_GOLD: i32 = 200;

/// The gold a session starts with when money is no object.
pub const BOTTOMLESS_GOLD: i32 = 999999;

/// The player's purse. It never holds less than nothing.
#[derive(Copy, Clone, Debug, PartialEq, Eq, Structural)]
pub struct Gold(pub i32);

/// A request to set the purse back to its starting amount.
#[derive(Copy, Clone, Debug, PartialEq, Eq, Structural)]
pub struct ResetGold;

/// A request to add to the purse, or to take from it.
#[derive(Copy, Clone, Debug, PartialEq, Eq, Structural)]
pub struct ChangeGold(pub i32);

impl Gold {
    /// The amount in the purse.
    pub fn get(&self) -> (r: i32)
        ensures
            r == self.0,
    {
        self.0
    }
}

/// Asks for the purse to be set back to its starting amount.
pub fn send_reset_gold_message(bus: &mut EffectBus)
    ensures
        final(bus)@ == old(bus)@.push(notice(Payload::ResetGold(ResetGold))),
{
    bus.send(None, None, Payload::ResetGold(ResetGold));
}

/// Asks for `amount` to be added to the purse; a negative amount is taken
/// from it.
pub fn send_change_gold_message(bus: &mut EffectBus, amount: i32)
    ensures
        final(bus)@ == old(bus)@.push(notice(Payload::ChangeGold(ChangeGold(amount)))),
{
    bus.send(None, None, Payload::ChangeGold(ChangeGold(amount)));
}

/// What a purse is set back to.
pub open spec fn fresh_purse(cheats: Cheats) -> Gold {
    if cheats.infinite_money {
        Gold(BOTTOMLESS_GOLD)
    } else {
        Gold(STARTING_GOLD)
    }
}

/// Resolves the pending requests to reset the purse: with at least one of
/// them the purse is set back to its starting amount, and each is marked as
/// handled.
pub fn reset_gold(bus: &mut EffectBus, gold: &mut Gold, cheats: &Cheats)
    ensures
        final(bus)@ == after_handling(old(bus)@, PayloadKind::ResetGold),
        *final(gold) == (if old(bus)@.filter(wanted(PayloadKind::ResetGold)).len() > 0 {
            fresh_purse(*cheats)
        } else {
            *old(gold)
        }),
{
    let taken = bus.handle_kind(PayloadKind::ResetGold);
    if taken.len() > 0 {
        if cheats.infinite_money {
            *gold = Gold(BOTTOMLESS_GOLD);
        } else {
            *gold = Gold(STARTING_GOLD);
        }
    }
}

/// The amount by which a message changes the purse.
pub open spec fn gold_change_of(m: Message) -> int {
    match m.payload {
        Payload::ChangeGold(c) => c.0 as int,
        _ => 0,
    }
}

/// The purse after one change: the sum, but never less than nothing nor
/// more than an `i32` holds.
pub open spec fn purse_changed(gold: int, change: int) -> int {
    if held(gold + change) < 0 {
        0
    } else {
        held(gold + change)
    }
}

/// The purse after the first `n` of the changes, one after the other.
pub open spec fn purse_after(gold: int, changes: Seq<Message>, n: nat) -> int
    decreases n,
{
    if n == 0 {
        gold
    } else {
        purse_changed(purse_after(gold, changes, (n - 1) as nat), gold_change_of(changes[n - 1]))
    }
}

/// Resolves the pending changes of the purse, oldest first, and marks each
/// as handled. The purse never drops below nothing. Where money is no
/// object the purse stays as it is.
pub fn change_gold(bus: &mut EffectBus, gold: &mut Gold, cheats: &Cheats)
    ensures
        final(bus)@ == after_handling(old(bus)@, PayloadKind::ChangeGold),
        final(gold).0 == (if cheats.infinite_money {
            old(gold).0 as int
        } else {
            purse_after(
                old(gold).0 as int,
                old(bus)@.filter(wanted(PayloadKind::ChangeGold)),
                old(bus)@.filter(wanted(PayloadKind::ChangeGold)).len(),
            )
        }),
{
    let taken = bus.handle_kind(PayloadKind::ChangeGold);
    if cheats.infinite_money {
        return ;
    }
    let mut i: usize = 0;
    while i < taken.len()
        invariant
            i <= taken@.len(),
            gold.0 == purse_after(old(gold).0 as int, taken@, i as nat),
        decreases taken@.len() - i,
    {
        let change: i32 = match taken[i].payload {
            Payload::ChangeGold(c) => c.0,
            _ => 0,
        };
        let sum = hold(gold.0 as i64 + change as i64);
        *gold = Gold(
            if sum < 0 {
                0
            } else {
                sum
            },
        );
        i += 1;
    }
}

} // verus!
