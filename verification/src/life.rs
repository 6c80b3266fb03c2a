//! Lives: how many enemies may still get through.

use crate::arith::held;
use crate::arith::hold;
use crate::messages::after_handling;
use crate::messages::notice;
use crate::messages::wanted;
use crate::messages::EffectBus;
use crate::messages::Message;
use crate::messages::Payload;
use crate::messages::PayloadKind;
use vstd::prelude::*;

verus! {

/// The lives a session starts with.
pub const STARTING_LIVES: i32 = 10;

/// The lives left.
#[derive(Copy, Clone, Debug, PartialEq, Eq, Structural)]
pub struct Lives(pub i32);

/// A request to set the lives back to their starting number.
#[derive(Copy, Clone, Debug, PartialEq, Eq, Structural)]
pub struct ResetLives;

/// A request to add lives, or to take some.
#[derive(Copy, Clone, Debug, PartialEq, Eq, Structural)]
pub struct ChangeLives(pub i32);

/// The news that no life is left.
#[derive(Copy, Clone, Debug, PartialEq, Eq, Structural)]
pub struct OutOfLives;

impl Lives {
    /// The lives left.
    pub fn get(&self) -> (r: i32)
        ensures
            r == self.0,
    {
        self.0
    }
}

/// Asks for the lives to be set back to their starting number.
pub fn send_reset_lives_message(bus: &mut EffectBus)
    ensures
        final(bus)@ == old(bus)@.push(notice(Payload::ResetLives(ResetLives))),
{
    bus.send(None, None, Payload::ResetLives(ResetLives));
}

/// Asks for `amount` lives to be added; a negative amount is taken.
pub fn send_change_lives_message(bus: &mut EffectBus, amount: i32)
    ensures
        final(bus)@ == old(bus)@.push(notice(Payload::ChangeLives(ChangeLives(amount)))),
{
    bus.send(None, None, Payload::ChangeLives(ChangeLives(amount)));
}

/// Resolves the pending requests to reset the lives: with at least one of
/// them the lives are set back to their starting number, and each is marked
/// as handled.
pub fn reset_lives(bus: &mut EffectBus, lives: &mut Lives)
    ensures
        final(bus)@ == after_handling(old(bus)@, PayloadKind::ResetLives),
        *final(lives) == (if old(bus)@.filter(wanted(PayloadKind::ResetLives)).len() > 0 {
            Lives(STARTING_LIVES)
        } else {
            *old(lives)
        }),
{
    let taken = bus.handle_kind(PayloadKind::ResetLives);
    if taken.len() > 0 {
        *lives = Lives(STARTING_LIVES);
    }
}

/// The number of lives by which a message changes the count.
pub open spec fn lives_change_of(m: Message) -> int {
    match m.payload {
        Payload::ChangeLives(c) => c.0 as int,
        _ => 0,
    }
}

/// The lives after the first `n` of the changes, one after the other.
pub open spec fn lives_after(lives: int, changes: Seq<Message>, n: nat) -> int
    decreases n,
{
    if n == 0 {
        lives
    } else {
        held(lives_after(lives, changes, (n - 1) as nat) + lives_change_of(changes[n - 1]))
    }
}

/// How many of the first `n` changes leave no life.
pub open spec fn alarms(lives: int, changes: Seq<Message>, n: nat) -> nat
    decreases n,
{
    if n == 0 {
        0
    } else if lives_after(lives, changes, n) <= 0 {
        alarms(lives, changes, (n - 1) as nat) + 1
    } else {
        alarms(lives, changes, (n - 1) as nat)
    }
}

/// Resolves the pending changes of the lives, oldest first, and marks each
/// as handled. Each change that leaves no life puts the news of it on the
/// bus.
pub fn change_lives(bus: &mut EffectBus, lives: &mut Lives)
    ensures
        final(lives).0 == lives_after(
            old(lives).0 as int,
            old(bus)@.filter(wanted(PayloadKind::ChangeLives)),
            old(bus)@.filter(wanted(PayloadKind::ChangeLives)).len(),
        ),
        final(bus)@ == after_handling(old(bus)@, PayloadKind::ChangeLives) + Seq::new(
            alarms(
                old(lives).0 as int,
                old(bus)@.filter(wanted(PayloadKind::ChangeLives)),
                old(bus)@.filter(wanted(PayloadKind::ChangeLives)).len(),
            ),
            |k: int| notice(Payload::OutOfLives(OutOfLives)),
        ),
{
    let taken = bus.handle_kind(PayloadKind::ChangeLives);
    let ghost marked = bus@;
    let mut i: usize = 0;
    while i < taken.len()
        invariant
            i <= taken@.len(),
            lives.0 == lives_after(old(lives).0 as int, taken@, i as nat),
            bus@ == marked + Seq::new(
                alarms(old(lives).0 as int, taken@, i as nat),
                |k: int| notice(Payload::OutOfLives(OutOfLives)),
            ),
        decreases taken@.len() - i,
    {
        let change: i32 = match taken[i].payload {
            Payload::ChangeLives(c) => c.0,
            _ => 0,
        };
        *lives = Lives(hold(lives.0 as i64 + change as i64));
        if lives.0 <= 0 {
            bus.send(None, None, Payload::OutOfLives(OutOfLives));
        }
        assert(bus@ =~= marked + Seq::new(
            alarms(old(lives).0 as int, taken@, (i + 1) as nat),
            |k: int| notice(Payload::OutOfLives(OutOfLives)),
        ));
        i += 1;
    }
}

} // verus!
