//! The knights and whether each of them can be sent to a tower.

use crate::messages::after_handling;
use crate::messages::wanted;
use crate::messages::EffectBus;
use crate::messages::PayloadKind;
use vstd::prelude::*;

verus! {

/// Whether a knight can be placed.
#[derive(Copy, Clone, Debug, PartialEq, Eq, Structural)]
pub enum KUsageStatus {
    Ready,
    Busy,
    Locked,
}

/// The knights of the order.
#[derive(Eq, PartialEq, PartialOrd, Ord, Debug, Copy, Clone, Structural)]
pub enum Knight {
    Normal,
    Swole,
    Lizard,
    Dungeon,
    Samurai,
    Banner,
}

/// The place of a knight in the roll of the order.
pub open spec fn roll_number(k: Knight) -> int {
    match k {
        Knight::Normal => 0,
        Knight::Swole => 1,
        Knight::Lizard => 2,
        Knight::Dungeon => 3,
        Knight::Samurai => 4,
        Knight::Banner => 5,
    }
}

/// The name under which a knight is known.
pub open spec fn name_of(k: Knight) -> Seq<char> {
    match k {
        Knight::Normal => "Alright Knight"@,
        Knight::Swole => "Swole Knight"@,
        Knight::Lizard => "Lizard Knight"@,
        Knight::Banner => "Banner Knight"@,
        Knight::Dungeon => "Dungeon Knight"@,
        Knight::Samurai => "The Knight with No Name"@,
    }
}

impl Knight {
    /// The name under which the knight is known.
    pub fn get_name(&self) -> (r: &'static str)
        ensures
            r@ == name_of(*self),
    {
        match *self {
            Knight::Normal => "Alright Knight",
            Knight::Swole => "Swole Knight",
            Knight::Lizard => "Lizard Knight",
            Knight::Banner => "Banner Knight",
            Knight::Dungeon => "Dungeon Knight",
            _ => "The Knight with No Name",
        }
    }

    fn roll(&self) -> (r: usize)
        ensures
            r == roll_number(*self),
            r < 6,
    {
        match *self {
            Knight::Normal => 0,
            Knight::Swole => 1,
            Knight::Lizard => 2,
            Knight::Dungeon => 3,
            Knight::Samurai => 4,
            Knight::Banner => 5,
        }
    }
}

/// The status of a knight in a table; a knight that the table does not list
/// is locked.
pub open spec fn status_in(m: Map<Knight, KUsageStatus>, k: Knight) -> KUsageStatus {
    if m.dom().contains(k) {
        m[k]
    } else {
        KUsageStatus::Locked
    }
}

/// The table a session starts with: the first knight is ready, four more are
/// listed as locked.
pub open spec fn starting_statuses() -> Map<Knight, KUsageStatus> {
    Map::<Knight, KUsageStatus>::empty().insert(Knight::Normal, KUsageStatus::Ready).insert(
        Knight::Swole,
        KUsageStatus::Locked,
    ).insert(Knight::Lizard, KUsageStatus::Locked).insert(
        Knight::Banner,
        KUsageStatus::Locked,
    ).insert(Knight::Dungeon, KUsageStatus::Locked)
}

/// The table of the knights' statuses.
#[derive(Clone, Copy, Debug)]
pub struct KnightStatuses {
    slots: [Option<KUsageStatus>; 6],
}

impl View for KnightStatuses {
    type V = Map<Knight, KUsageStatus>;

    closed spec fn view(&self) -> Map<Knight, KUsageStatus> {
        Map::new(
            |k: Knight| self.slots@[roll_number(k)] is Some,
            |k: Knight| self.slots@[roll_number(k)]->0,
        )
    }
}

impl KnightStatuses {
    /// The table a session starts with.
    pub fn new() -> (s: Self)
        ensures
            s@ == starting_statuses(),
    {
        let s = Self {
            slots: [
                Some(KUsageStatus::Ready),
                Some(KUsageStatus::Locked),
                Some(KUsageStatus::Locked),
                Some(KUsageStatus::Locked),
                None,
                Some(KUsageStatus::Locked),
            ],
        };
        assert(s@ =~= starting_statuses()) by {
            assert forall|k: Knight| s@.dom().contains(k) == starting_statuses().dom().contains(
                k,
            ) by {
                match k {
                    Knight::Normal => {},
                    Knight::Swole => {},
                    Knight::Lizard => {},
                    Knight::Dungeon => {},
                    Knight::Samurai => {},
                    Knight::Banner => {},
                }
            }
        }
        s
    }

    /// The status of `knight`; a knight that is not listed is locked.
    pub fn get_status(&self, knight: Knight) -> (r: KUsageStatus)
        ensures
            r == status_in(self@, knight),
    {
        match self.slots[knight.roll()] {
            Some(state) => state,
            None => KUsageStatus::Locked,
        }
    }

    /// Lists `knight` with `new_status`.
    pub fn set_status(&mut self, knight: Knight, new_status: KUsageStatus)
        ensures
            final(self)@ == old(self)@.insert(knight, new_status),
    {
        let i = knight.roll();
        self.slots[i] = Some(new_status);
        assert(self@ =~= old(self)@.insert(knight, new_status)) by {
            assert forall|k: Knight| #[trigger]
                self@.dom().contains(k) == old(self)@.insert(knight, new_status).dom().contains(
                    k,
                ) && (self@.dom().contains(k) ==> self@[k] == old(self)@.insert(
                    knight,
                    new_status,
                )[k]) by {
                if roll_number(k) == roll_number(knight) {
                    assert(k == knight);
                }
            }
        }
    }
}

/// Resolves the pending requests to start over: with at least one of them
/// the table is set back to the one a session starts with, and each is
/// marked as handled.
pub fn reset_knights(bus: &mut EffectBus, statuses: &mut KnightStatuses)
    ensures
        final(bus)@ == after_handling(old(bus)@, PayloadKind::Reset),
        final(statuses)@ == (if old(bus)@.filter(wanted(PayloadKind::Reset)).len() > 0 {
            starting_statuses()
        } else {
            old(statuses)@
        }),
{
    let taken = bus.handle_kind(PayloadKind::Reset);
    if taken.len() > 0 {
        *statuses = KnightStatuses::new();
    }
}

} // verus!
