//! Cooldowns: the time a tower waits between two shots, in milliseconds.

use crate::arith::held;
use crate::arith::hold;
use crate::messages::after_handling;
use crate::messages::request;
use crate::messages::wanted;
use crate::messages::EffectBus;
use crate::messages::Message;
use crate::messages::Payload;
use crate::messages::PayloadKind;
use crate::messages::Target;
use vstd::prelude::*;

verus! {

/// How often cooldowns are advanced, in milliseconds.
pub const CD_TICK_RATE: i32 = 15;

/// A request to give the target's cooldown another full length.
#[derive(Clone, Copy, Debug, PartialEq, Eq, Structural)]
pub struct ResetCooldown;

/// A countdown. It is ready once nothing is left of it; it may run below
/// zero, and a refill then makes up for the overshoot.
#[derive(Clone, Copy, Debug, PartialEq, Eq, Structural)]
pub struct Cooldown {
    max: i32,
    current: i32,
}

impl Cooldown {
    /// The full length.
    pub closed spec fn length(&self) -> int {
        self.max as int
    }

    /// What is left to wait.
    pub closed spec fn remaining(&self) -> int {
        self.current as int
    }

    /// Two cooldowns with the same numbers are the same.
    pub proof fn lemma_same(a: Cooldown, b: Cooldown)
        requires
            a.length() == b.length(),
            a.remaining() == b.remaining(),
        ensures
            a == b,
    {
    }

    /// A cooldown of `length_in_millis`, with all of it still to wait.
    pub fn from_millis(length_in_millis: i32) -> (c: Self)
        ensures
            c.length() == length_in_millis,
            c.remaining() == length_in_millis,
    {
        Self { max: length_in_millis, current: length_in_millis }
    }

    /// This cooldown with another length. What is left to wait is kept, but
    /// held between nothing and the new length.
    pub fn with_new_length_millis(&self, new_length_in_millis: i32) -> (c: Self)
        requires
            new_length_in_millis >= 0,
        ensures
            c.length() == new_length_in_millis,
            c.remaining() == (if self.remaining() < 0 {
                0
            } else if self.remaining() > new_length_in_millis {
                new_length_in_millis as int
            } else {
                self.remaining()
            }),
    {
        let current = if self.current < 0 {
            0
        } else if self.current > new_length_in_millis {
            new_length_in_millis
        } else {
            self.current
        };
        Self { max: new_length_in_millis, current }
    }

    /// The full length, in milliseconds.
    pub fn get_max(&self) -> (r: i32)
        ensures
            r == self.length(),
    {
        self.max
    }

    /// What is left to wait, in milliseconds.
    pub fn get_current(&self) -> (r: i32)
        ensures
            r == self.remaining(),
    {
        self.current
    }

    /// Lets `amount` milliseconds pass.
    pub fn progress_milliseconds(&mut self, amount: i32)
        ensures
            final(self).length() == old(self).length(),
            final(self).remaining() == held(old(self).remaining() - amount),
    {
        self.current = hold(self.current as i64 - amount as i64);
    }

    /// Whether nothing is left to wait.
    pub fn is_ready(&self) -> (r: bool)
        ensures
            r == (self.remaining() <= 0),
    {
        self.current <= 0
    }

    /// Starts the countdown anew, whatever was left.
    pub fn reset(&mut self)
        ensures
            final(self).length() == old(self).length(),
            final(self).remaining() == old(self).length(),
    {
        self.current = self.max;
    }

    /// Adds one full length to what is left, so that an overshoot is not
    /// lost.
    pub fn refill(&mut self)
        ensures
            final(self).length() == old(self).length(),
            final(self).remaining() == held(old(self).remaining() + old(self).length()),
    {
        self.current = hold(self.current as i64 + self.max as i64);
    }
}

/// The cooldown after one tick: a ready one waits, any other advances.
pub open spec fn ticked(c: Cooldown, after: Cooldown) -> bool {
    &&& after.length() == c.length()
    &&& after.remaining() == (if c.remaining() <= 0 {
        c.remaining()
    } else {
        held(c.remaining() - CD_TICK_RATE)
    })
}

/// Advances every cooldown that is not ready by one tick.
pub fn decrement_cooldowns(cooldowns: &mut Vec<Cooldown>)
    ensures
        final(cooldowns)@.len() == old(cooldowns)@.len(),
        forall|i: int|
            0 <= i < old(cooldowns)@.len() ==> ticked(
                old(cooldowns)@[i],
                #[trigger] final(cooldowns)@[i],
            ),
{
    let mut i: usize = 0;
    while i < cooldowns.len()
        invariant
            i <= cooldowns@.len(),
            cooldowns@.len() == old(cooldowns)@.len(),
            forall|j: int| 0 <= j < i ==> ticked(old(cooldowns)@[j], #[trigger] cooldowns@[j]),
            forall|j: int| i <= j < cooldowns@.len() ==> cooldowns@[j] == old(cooldowns)@[j],
        decreases cooldowns@.len() - i,
    {
        let mut cd = cooldowns[i];
        if !cd.is_ready() {
            cd.progress_milliseconds(CD_TICK_RATE);
        }
        cooldowns.set(i, cd);
        i += 1;
    }
}

/// The cooldown with one more full length to wait.
pub closed spec fn refilled(c: Cooldown) -> Cooldown {
    Cooldown { max: c.max, current: held(c.current + c.max) as i32 }
}

/// What a refill does to the numbers.
pub proof fn lemma_refilled(c: Cooldown)
    ensures
        refilled(c).length() == c.length(),
        refilled(c).remaining() == held(c.remaining() + c.length()),
{
}

/// The cooldowns after one message: the target's is refilled. A message
/// without a target, or meant for a tower that is not there, changes
/// nothing.
pub open spec fn refreshed(cooldowns: Seq<Cooldown>, m: Message) -> Seq<Cooldown> {
    match m.target {
        Some(t) => if t.0 < cooldowns.len() {
            cooldowns.update(t.0 as int, refilled(cooldowns[t.0 as int]))
        } else {
            cooldowns
        },
        None => cooldowns,
    }
}

/// The cooldowns after the first `n` of the messages, one after the other.
pub open spec fn after_refreshes(cooldowns: Seq<Cooldown>, msgs: Seq<Message>, n: nat) -> Seq<
    Cooldown,
>
    decreases n,
{
    if n == 0 {
        cooldowns
    } else {
        refreshed(after_refreshes(cooldowns, msgs, (n - 1) as nat), msgs[n - 1])
    }
}

/// Resolves the pending requests to reset a cooldown, oldest first: each
/// gives its target's cooldown another full length, and is marked as handled
/// whether or not its target is there.
pub fn handle_cooldown_refresh_messages(bus: &mut EffectBus, cooldowns: &mut Vec<Cooldown>)
    ensures
        final(bus)@ == after_handling(old(bus)@, PayloadKind::ResetCooldown),
        final(cooldowns)@ == after_refreshes(
            old(cooldowns)@,
            old(bus)@.filter(wanted(PayloadKind::ResetCooldown)),
            old(bus)@.filter(wanted(PayloadKind::ResetCooldown)).len(),
        ),
{
    let taken = bus.handle_kind(PayloadKind::ResetCooldown);
    let mut i: usize = 0;
    while i < taken.len()
        invariant
            i <= taken@.len(),
            cooldowns@ == after_refreshes(old(cooldowns)@, taken@, i as nat),
        decreases taken@.len() - i,
    {
        match taken[i].target {
            Some(t) => {
                if t.0 < cooldowns.len() {
                    let mut cd = cooldowns[t.0];
                    let ghost before = cd;
                    cd.refill();
                    assert(cd == refilled(before));
                    cooldowns.set(t.0, cd);
                }
            },
            None => {},
        }
        i += 1;
    }
}

/// Asks for the cooldown of the tower `target` to be reset.
pub fn spawn_cd_reset_message(target: usize, bus: &mut EffectBus)
    ensures
        final(bus)@ == old(bus)@.push(request(target, Payload::ResetCooldown(ResetCooldown))),
{
    bus.send(None, Some(Target(target)), Payload::ResetCooldown(ResetCooldown));
}

} // verus!
