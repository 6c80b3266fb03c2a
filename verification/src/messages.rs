//! The message bus: subsystems emit target-addressed messages, and a fixed
//! pipeline merges, applies and reaps them once per cycle.

use crate::elements::bounded;
use crate::elements::combined;
use crate::elements::lemma_sum_of_view;
use crate::elements::reduced;
use crate::elements::sum_of;
use crate::elements::Element;
use crate::cooldown::ResetCooldown;
use crate::elements::ElementalAffliction;
use crate::gold::ChangeGold;
use crate::gold::ResetGold;
use crate::health::Harm;
use crate::health::Heal;
use crate::life::ChangeLives;
use crate::life::OutOfLives;
use crate::life::ResetLives;
use crate::map::GridMap;
use crate::towers::BuildTower;
use crate::towers::PlaceKnight;
use crate::towers::Sell;
use crate::towers::SpawnProjectile;
use crate::tile::charge_of;
use crate::tile::lemma_tile_charge;
use crate::tile::Tile;
use vstd::prelude::*;

verus! {

/// The handle of the thing a message is addressed to. For element messages
/// it is the index of a tile.
#[derive(Clone, Copy, Debug, PartialEq, Eq, Structural)]
pub struct Target(pub usize);

/// The handle of the thing that sent a message.
#[derive(Clone, Copy, Debug, PartialEq, Eq, Structural)]
pub struct Sender(pub usize);

/// What a message asks for.
#[derive(Clone, Copy, Debug)]
pub enum Payload {
    /// Add the affliction to the target tile's charge.
    ApplyElement(ElementalAffliction),
    /// Take the affliction from the target tile's charge.
    RemoveElement(ElementalAffliction),
    /// Restore hit points of the target.
    Heal(Heal),
    /// Take hit points from the target.
    Harm(Harm),
    /// Add to the purse, or take from it.
    ChangeGold(ChangeGold),
    /// Set the purse back to its starting amount.
    ResetGold(ResetGold),
    /// Add lives, or take some.
    ChangeLives(ChangeLives),
    /// Set the lives back to their starting number.
    ResetLives(ResetLives),
    /// No life is left.
    OutOfLives(OutOfLives),
    /// Give the target's cooldown another full length.
    ResetCooldown(ResetCooldown),
    /// Start the session over.
    Reset(Reset),
    /// Build a tower.
    BuildTower(BuildTower),
    /// Send a knight to a tower.
    PlaceKnight(PlaceKnight),
    /// Sell the target tower.
    Sell(Sell),
    /// Launch a projectile from the sender at the target.
    SpawnProjectile(SpawnProjectile),
}

/// A request to start the session over.
#[derive(Clone, Copy, Debug, PartialEq, Eq, Structural)]
pub struct Reset;

/// The kinds of payload.
#[derive(Clone, Copy, Debug, PartialEq, Eq, Structural)]
pub enum PayloadKind {
    ApplyElement,
    RemoveElement,
    Heal,
    Harm,
    ChangeGold,
    ResetGold,
    ChangeLives,
    ResetLives,
    OutOfLives,
    ResetCooldown,
    Reset,
    BuildTower,
    PlaceKnight,
    Sell,
    SpawnProjectile,
}

/// The kind of a payload.
pub open spec fn kind_of(p: Payload) -> PayloadKind {
    match p {
        Payload::ApplyElement(_) => PayloadKind::ApplyElement,
        Payload::RemoveElement(_) => PayloadKind::RemoveElement,
        Payload::Heal(_) => PayloadKind::Heal,
        Payload::Harm(_) => PayloadKind::Harm,
        Payload::ChangeGold(_) => PayloadKind::ChangeGold,
        Payload::ResetGold(_) => PayloadKind::ResetGold,
        Payload::ChangeLives(_) => PayloadKind::ChangeLives,
        Payload::ResetLives(_) => PayloadKind::ResetLives,
        Payload::OutOfLives(_) => PayloadKind::OutOfLives,
        Payload::ResetCooldown(_) => PayloadKind::ResetCooldown,
        Payload::Reset(_) => PayloadKind::Reset,
        Payload::BuildTower(_) => PayloadKind::BuildTower,
        Payload::PlaceKnight(_) => PayloadKind::PlaceKnight,
        Payload::Sell(_) => PayloadKind::Sell,
        Payload::SpawnProjectile(_) => PayloadKind::SpawnProjectile,
    }
}

impl Payload {
    /// The kind of this payload.
    pub fn kind(&self) -> (k: PayloadKind)
        ensures
            k == kind_of(*self),
    {
        match self {
            Payload::ApplyElement(_) => PayloadKind::ApplyElement,
            Payload::RemoveElement(_) => PayloadKind::RemoveElement,
            Payload::Heal(_) => PayloadKind::Heal,
            Payload::Harm(_) => PayloadKind::Harm,
            Payload::ChangeGold(_) => PayloadKind::ChangeGold,
            Payload::ResetGold(_) => PayloadKind::ResetGold,
            Payload::ChangeLives(_) => PayloadKind::ChangeLives,
            Payload::ResetLives(_) => PayloadKind::ResetLives,
            Payload::OutOfLives(_) => PayloadKind::OutOfLives,
            Payload::ResetCooldown(_) => PayloadKind::ResetCooldown,
            Payload::Reset(_) => PayloadKind::Reset,
            Payload::BuildTower(_) => PayloadKind::BuildTower,
            Payload::PlaceKnight(_) => PayloadKind::PlaceKnight,
            Payload::Sell(_) => PayloadKind::Sell,
            Payload::SpawnProjectile(_) => PayloadKind::SpawnProjectile,
        }
    }
}

/// A pending message that nobody in particular sent to nobody in particular.
pub open spec fn notice(payload: Payload) -> Message {
    Message { sender: None, target: None, payload, handled: false }
}

/// A pending message from nobody in particular to the target `to`.
pub open spec fn request(to: usize, payload: Payload) -> Message {
    Message { sender: None, target: Some(Target(to)), payload, handled: false }
}

/// The test for pending messages of the kind `kind`.
pub open spec fn wanted(kind: PayloadKind) -> spec_fn(Message) -> bool {
    |m: Message| !m.handled && kind_of(m.payload) == kind
}

/// The queue after every pending message of the kind `kind` was marked as
/// handled.
pub open spec fn after_handling(msgs: Seq<Message>, kind: PayloadKind) -> Seq<Message> {
    msgs.map_values(
        |m: Message|
            if wanted(kind)(m) {
                done(m)
            } else {
                m
            },
    )
}

/// A deferred, addressed instruction.
#[derive(Clone, Copy, Debug)]
pub struct Message {
    pub sender: Option<Sender>,
    pub target: Option<Target>,
    pub payload: Payload,
    pub handled: bool,
}

/// The two directions in which an element message changes a tile's charge.
#[derive(Clone, Copy, Debug, PartialEq, Eq, Structural)]
pub enum DeltaKind {
    Apply,
    Remove,
}

/// An element message ready to be sent: an affliction and the tile it is
/// meant for.
#[derive(Clone, Copy, Debug)]
pub struct ApplyElementMessage {
    pub element: ElementalAffliction,
    pub target: Target,
}

impl ApplyElementMessage {
    /// A message that adds `amount` of one element to the tile `target`.
    pub fn single_element(element: Element, amount: u32, target: usize) -> (r: Self)
        ensures
            r.target == Target(target),
            r.element == ElementalAffliction::spec_single(element, amount),
            r.element@ == Map::<Element, nat>::empty().insert(element, amount as nat),
    {
        Self { element: ElementalAffliction::single(element, amount), target: Target(target) }
    }

    /// The message as it travels on the bus: unsent by anyone in particular
    /// and not yet handled.
    pub fn into_message(self) -> (m: Message)
        ensures
            m == (Message {
                sender: None,
                target: Some(self.target),
                payload: Payload::ApplyElement(self.element),
                handled: false,
            }),
    {
        Message {
            sender: None,
            target: Some(self.target),
            payload: Payload::ApplyElement(self.element),
            handled: false,
        }
    }
}

/// A change of charge: the tile, the direction and the amount.
#[derive(Clone, Copy, Debug)]
pub struct Delta {
    pub tile: usize,
    pub kind: DeltaKind,
    pub amount: ElementalAffliction,
}

/// Whether `m` asks for a change of charge, addressed or not.
pub open spec fn is_element_message(m: Message) -> bool {
    m.payload is ApplyElement || m.payload is RemoveElement
}

/// The change of charge that a pending, addressed message carries: the tile,
/// the direction and the amount.
pub open spec fn delta_of(m: Message) -> Option<Delta> {
    if m.handled {
        None
    } else {
        match (m.target, m.payload) {
            (Some(t), Payload::ApplyElement(a)) => Some(
                Delta { tile: t.0, kind: DeltaKind::Apply, amount: a },
            ),
            (Some(t), Payload::RemoveElement(a)) => Some(
                Delta { tile: t.0, kind: DeltaKind::Remove, amount: a },
            ),
            _ => None,
        }
    }
}

/// Whether `m` is a pending change of charge of the tile `tile` in the
/// direction `kind`.
pub open spec fn addresses(m: Message, tile: usize, kind: DeltaKind) -> bool {
    delta_of(m) is Some && delta_of(m).unwrap().tile == tile && delta_of(m).unwrap().kind == kind
}

/// The sum of what the first `n` messages ask to change of the tile `tile` in
/// the direction `kind`.
pub open spec fn total_delta(msgs: Seq<Message>, tile: usize, kind: DeltaKind, n: nat) -> Map<
    Element,
    nat,
>
    decreases n,
{
    if n == 0 {
        Map::empty()
    } else {
        let rest = total_delta(msgs, tile, kind, (n - 1) as nat);
        if addresses(msgs[n - 1], tile, kind) {
            combined(rest, delta_of(msgs[n - 1]).unwrap().amount@)
        } else {
            rest
        }
    }
}

/// Whether any of the first `n` messages is a pending change of the tile
/// `tile` in the direction `kind`.
pub open spec fn is_addressed(msgs: Seq<Message>, tile: usize, kind: DeltaKind, n: nat) -> bool {
    exists|i: int| 0 <= i < n && addresses(#[trigger] msgs[i], tile, kind)
}

/// No two pending changes of charge have the same tile and direction.
pub open spec fn one_per_target(msgs: Seq<Message>) -> bool {
    forall|i: int, j: int|
        0 <= i < j < msgs.len() && delta_of(#[trigger] msgs[i]) is Some && delta_of(
            #[trigger] msgs[j],
        ) is Some ==> !(delta_of(msgs[i]).unwrap().tile == delta_of(msgs[j]).unwrap().tile && delta_of(
            msgs[i],
        ).unwrap().kind == delta_of(msgs[j]).unwrap().kind)
}

/// The messages that the element pipeline passes through: everything but
/// pending, addressed changes of charge.
pub open spec fn passes_through(m: Message) -> bool {
    delta_of(m) is None
}

/// The test for messages that pass through the element pipeline.
pub open spec fn passing() -> spec_fn(Message) -> bool {
    |m: Message| passes_through(m)
}

/// The test for messages that are not handled yet.
pub open spec fn unhandled() -> spec_fn(Message) -> bool {
    |m: Message| !m.handled
}

/// The message `m` after it took up the amount `a` as well.
pub open spec fn absorbed(m: Message, a: ElementalAffliction) -> Message {
    Message {
        sender: m.sender,
        target: m.target,
        payload: match m.payload {
            Payload::ApplyElement(x) => Payload::ApplyElement(sum_of(x, a)),
            Payload::RemoveElement(x) => Payload::RemoveElement(sum_of(x, a)),
            p => p,
        },
        handled: m.handled,
    }
}

/// The message `m`, marked as handled.
pub open spec fn done(m: Message) -> Message {
    Message { sender: m.sender, target: m.target, payload: m.payload, handled: true }
}

/// The queue after a stage that resolves the element messages of the
/// direction `kind`: each pending one is marked, addressed or not.
pub open spec fn after_stage(msgs: Seq<Message>, kind: DeltaKind) -> Seq<Message> {
    msgs.map_values(
        |m: Message|
            if !m.handled && in_direction(m, kind) {
                done(m)
            } else {
                m
            },
    )
}

/// Whether `m` is an element message of the direction `kind`.
pub open spec fn in_direction(m: Message, kind: DeltaKind) -> bool {
    match kind {
        DeltaKind::Apply => m.payload is ApplyElement,
        DeltaKind::Remove => m.payload is RemoveElement,
    }
}

/// What the tile `idx` looks like after a stage resolved `msgs` in the
/// direction `kind`, starting from `t`: untouched where no message is meant
/// for it; otherwise it carries an affliction, changed by the sum of what
/// the messages ask.
pub open spec fn tile_after_stage(t: Tile, after: Tile, msgs: Seq<Message>, idx: usize, kind: DeltaKind) -> bool {
    if is_addressed(msgs, idx, kind, msgs.len()) {
        &&& after.tile_type == t.tile_type
        &&& after.structure == t.structure
        &&& after.affliction is Some
        &&& charge_of(after) == match kind {
            DeltaKind::Apply => combined(charge_of(t), total_delta(msgs, idx, kind, msgs.len())),
            DeltaKind::Remove => reduced(charge_of(t), total_delta(msgs, idx, kind, msgs.len())),
        }
    } else {
        after == t
    }
}

/// Sums only depend on the messages they range over.
pub proof fn lemma_total_prefix(a: Seq<Message>, b: Seq<Message>, tile: usize, kind: DeltaKind, n: nat)
    requires
        n <= a.len(),
        n <= b.len(),
        forall|i: int| 0 <= i < n ==> a[i] == b[i],
    ensures
        total_delta(a, tile, kind, n) == total_delta(b, tile, kind, n),
    decreases n,
{
    if n > 0 {
        lemma_total_prefix(a, b, tile, kind, (n - 1) as nat);
    }
}

/// A sum of afflictions is bounded by what a `u32` holds.
pub proof fn lemma_total_bounded(msgs: Seq<Message>, tile: usize, kind: DeltaKind, n: nat)
    requires
        n <= msgs.len(),
    ensures
        bounded(total_delta(msgs, tile, kind, n)),
    decreases n,
{
    if n > 0 {
        lemma_total_bounded(msgs, tile, kind, (n - 1) as nat);
        if addresses(msgs[n - 1], tile, kind) {
            delta_of(msgs[n - 1]).unwrap().amount.lemma_bounded();
        }
    }
}

/// Adding is associative and the order of two additions does not matter;
/// taking two amounts away one after the other is taking their sum away.
pub proof fn lemma_charge_algebra(c: Map<Element, nat>, a: Map<Element, nat>, b: Map<Element, nat>)
    requires
        bounded(c),
        bounded(a),
        bounded(b),
    ensures
        combined(combined(c, a), b) == combined(c, combined(a, b)),
        combined(combined(c, a), b) == combined(combined(c, b), a),
        reduced(reduced(c, a), b) == reduced(c, combined(a, b)),
        combined(c, Map::<Element, nat>::empty()) == c,
        reduced(c, Map::<Element, nat>::empty()) == c,
        bounded(combined(c, a)),
        bounded(reduced(c, a)),
{
    assert(combined(combined(c, a), b) =~= combined(c, combined(a, b)));
    assert(combined(combined(c, a), b) =~= combined(combined(c, b), a));
    assert(reduced(reduced(c, a), b) =~= reduced(c, combined(a, b)));
    assert(combined(c, Map::<Element, nat>::empty()) =~= c);
    assert(reduced(c, Map::<Element, nat>::empty()) =~= c);
}

/// When a message takes up a further amount, the sum for its tile and
/// direction grows by that amount and every other sum stays.
pub proof fn lemma_total_absorb(
    msgs: Seq<Message>,
    j: int,
    a: ElementalAffliction,
    tile: usize,
    kind: DeltaKind,
    n: nat,
)
    requires
        0 <= j < msgs.len(),
        n <= msgs.len(),
        delta_of(msgs[j]) is Some,
    ensures
        total_delta(msgs.update(j, absorbed(msgs[j], a)), tile, kind, n) == (if j < n && addresses(
            msgs[j],
            tile,
            kind,
        ) {
            combined(total_delta(msgs, tile, kind, n), a@)
        } else {
            total_delta(msgs, tile, kind, n)
        }),
    decreases n,
{
    let after = msgs.update(j, absorbed(msgs[j], a));
    if n > 0 {
        lemma_total_absorb(msgs, j, a, tile, kind, (n - 1) as nat);
        lemma_total_bounded(msgs, tile, kind, (n - 1) as nat);
        let rest = total_delta(msgs, tile, kind, (n - 1) as nat);
        a.lemma_bounded();
        if n - 1 == j {
            if addresses(msgs[j], tile, kind) {
                let x = delta_of(msgs[j]).unwrap().amount;
                x.lemma_bounded();
                lemma_sum_of_view(x, a);
                assert(delta_of(after[j]).unwrap().amount == sum_of(x, a));
                lemma_charge_algebra(rest, x@, a@);
            }
        } else {
            assert(after[n - 1] == msgs[n - 1]);
            if addresses(msgs[n - 1], tile, kind) {
                let x = delta_of(msgs[n - 1]).unwrap().amount;
                x.lemma_bounded();
                lemma_charge_algebra(rest, a@, x@);
            }
        }
    }
}

/// The queue of pending messages.
pub struct EffectBus {
    pending: Vec<Message>,
}

impl View for EffectBus {
    type V = Seq<Message>;

    closed spec fn view(&self) -> Seq<Message> {
        self.pending@
    }
}

impl EffectBus {
    /// A bus with nothing pending.
    pub fn new() -> (bus: Self)
        ensures
            bus@ == Seq::<Message>::empty(),
    {
        EffectBus { pending: Vec::new() }
    }

    /// The number of messages on the bus, handled ones included.
    pub fn len(&self) -> (n: usize)
        ensures
            n == self@.len(),
    {
        self.pending.len()
    }

    /// The messages on the bus, oldest first.
    pub fn messages(&self) -> (r: &Vec<Message>)
        ensures
            r@ == self@,
    {
        &self.pending
    }

    /// Puts `message` at the end of the queue.
    pub fn emit(&mut self, message: Message)
        ensures
            final(self)@ == old(self)@.push(message),
    {
        self.pending.push(message);
    }

    /// Emits a pending message with the given addresses and payload.
    pub fn send(&mut self, sender: Option<Sender>, target: Option<Target>, payload: Payload)
        ensures
            final(self)@ == old(self)@.push(
                Message { sender, target, payload, handled: false },
            ),
    {
        self.pending.push(Message { sender, target, payload, handled: false });
    }

    /// Marks the message at `i` as handled. Where the queue has no such
    /// message nothing happens.
    pub fn mark_handled(&mut self, i: usize)
        ensures
            i < old(self)@.len() ==> final(self)@ == old(self)@.update(
                i as int,
                done(old(self)@[i as int]),
            ),
            i >= old(self)@.len() ==> final(self)@ == old(self)@,
    {
        if i < self.pending.len() {
            let m = self.pending[i];
            self.pending.set(
                i,
                Message { sender: m.sender, target: m.target, payload: m.payload, handled: true },
            );
        }
    }

    fn delta(m: &Message) -> (d: Option<Delta>)
        ensures
            d == delta_of(*m),
    {
        if m.handled {
            return None;
        }
        match m.target {
            Some(t) => match m.payload {
                Payload::ApplyElement(a) => Some(
                    Delta { tile: t.0, kind: DeltaKind::Apply, amount: a },
                ),
                Payload::RemoveElement(a) => Some(
                    Delta { tile: t.0, kind: DeltaKind::Remove, amount: a },
                ),
                _ => None,
            },
            None => None,
        }
    }

    fn same_kind(a: DeltaKind, b: DeltaKind) -> (r: bool)
        ensures
            r == (a == b),
    {
        match (a, b) {
            (DeltaKind::Apply, DeltaKind::Apply) => true,
            (DeltaKind::Remove, DeltaKind::Remove) => true,
            _ => false,
        }
    }

    fn find_slot(out: &Vec<Message>, tile: usize, kind: DeltaKind) -> (slot: Option<usize>)
        ensures
            slot is Some ==> slot->0 < out@.len() && addresses(out@[slot->0 as int], tile, kind),
            slot is None ==> !is_addressed(out@, tile, kind, out@.len()),
    {
        let mut j: usize = 0;
        while j < out.len()
            invariant
                j <= out@.len(),
                !is_addressed(out@, tile, kind, j as nat),
            decreases out@.len() - j,
        {
            match Self::delta(&out[j]) {
                Some(d) => {
                    if d.tile == tile && Self::same_kind(d.kind, kind) {
                        return Some(j);
                    }
                },
                None => {},
            }
            j += 1;
        }
        None
    }

    /// Merges the pending changes of charge: all that ask the same of the
    /// same tile, in the same direction, become one message that asks for
    /// their sum. It stands where the first of them stood. Every other
    /// message passes through, in its place.
    pub fn consolidate(&mut self)
        ensures
            one_per_target(final(self)@),
            forall|tile: usize, kind: DeltaKind|
                #[trigger] total_delta(final(self)@, tile, kind, final(self)@.len()) == total_delta(
                    old(self)@,
                    tile,
                    kind,
                    old(self)@.len(),
                ),
            forall|tile: usize, kind: DeltaKind|
                #[trigger] is_addressed(final(self)@, tile, kind, final(self)@.len())
                    == is_addressed(old(self)@, tile, kind, old(self)@.len()),
            final(self)@.filter(passing()) == old(self)@.filter(passing()),
            final(self)@.len() <= old(self)@.len(),
    {
        let mut out: Vec<Message> = Vec::new();
        let mut i: usize = 0;
        let ghost pass = passing();
        while i < self.pending.len()
            invariant
                i <= self.pending@.len(),
                self.pending@ == old(self).pending@,
                pass == passing(),
                out@.len() <= i,
                one_per_target(out@),
                forall|tile: usize, kind: DeltaKind|
                    #[trigger] total_delta(out@, tile, kind, out@.len()) == total_delta(
                        self.pending@,
                        tile,
                        kind,
                        i as nat,
                    ),
                forall|tile: usize, kind: DeltaKind|
                    #[trigger] is_addressed(out@, tile, kind, out@.len()) == is_addressed(
                        self.pending@,
                        tile,
                        kind,
                        i as nat,
                    ),
                out@.filter(pass) == self.pending@.subrange(0, i as int).filter(pass),
            decreases self.pending@.len() - i,
        {
            let m = self.pending[i];
            let ghost before = out@;
            let ghost msgs = self.pending@;
            proof {
                assert(msgs.subrange(0, i + 1) =~= msgs.subrange(0, i as int).push(m));
                lemma_filter_push(msgs.subrange(0, i as int), m, pass);
            }
            let slot = match Self::delta(&m) {
                Some(d) => match Self::find_slot(&out, d.tile, d.kind) {
                    Some(j) => Some((j, d.amount)),
                    None => None,
                },
                None => None,
            };
            match slot {
                Some((j, amount)) => {
                    let held = out[j];
                    let merged = Message {
                        sender: held.sender,
                        target: held.target,
                        payload: match held.payload {
                            Payload::ApplyElement(x) => {
                                let mut sum = x;
                                sum.add_all(&amount);
                                Payload::ApplyElement(sum)
                            },
                            Payload::RemoveElement(x) => {
                                let mut sum = x;
                                sum.add_all(&amount);
                                Payload::RemoveElement(sum)
                            },
                            p => p,
                        },
                        handled: held.handled,
                    };
                    assert(merged == absorbed(held, amount));
                    out.set(j, merged);
                    proof {
                        let d = delta_of(m).unwrap();
                        assert(delta_of(merged) is Some);
                        assert(delta_of(merged).unwrap().tile == delta_of(held).unwrap().tile);
                        assert(delta_of(merged).unwrap().kind == delta_of(held).unwrap().kind);
                        assert forall|tile: usize, kind: DeltaKind|
                            #[trigger] total_delta(out@, tile, kind, out@.len()) == total_delta(
                                msgs,
                                tile,
                                kind,
                                (i + 1) as nat,
                            ) by {
                            lemma_total_absorb(before, j as int, amount, tile, kind, before.len());
                            assert(total_delta(before, tile, kind, before.len()) == total_delta(
                                msgs,
                                tile,
                                kind,
                                i as nat,
                            ));
                        }
                        assert forall|tile: usize, kind: DeltaKind|
                            #[trigger] is_addressed(out@, tile, kind, out@.len()) == is_addressed(
                                msgs,
                                tile,
                                kind,
                                (i + 1) as nat,
                            ) by {
                            assert(is_addressed(before, tile, kind, before.len()) == is_addressed(
                                msgs,
                                tile,
                                kind,
                                i as nat,
                            ));
                            if is_addressed(out@, tile, kind, out@.len()) {
                                let k = choose|k: int|
                                    0 <= k < out@.len() && addresses(#[trigger] out@[k], tile, kind);
                                assert(addresses(before[k], tile, kind));
                                assert(is_addressed(msgs, tile, kind, i as nat));
                                let w = choose|w: int|
                                    0 <= w < i && addresses(#[trigger] msgs[w], tile, kind);
                                assert(0 <= w < i + 1 && addresses(msgs[w], tile, kind));
                            }
                            if is_addressed(msgs, tile, kind, (i + 1) as nat) {
                                let w = choose|w: int|
                                    0 <= w < i + 1 && addresses(#[trigger] msgs[w], tile, kind);
                                if w == i {
                                    assert(addresses(out@[j as int], tile, kind));
                                } else {
                                    assert(is_addressed(msgs, tile, kind, i as nat));
                                    let k = choose|k: int|
                                        0 <= k < before.len() && addresses(
                                            #[trigger] before[k],
                                            tile,
                                            kind,
                                        );
                                    assert(addresses(out@[k], tile, kind));
                                }
                            }
                        }
                        lemma_filter_update(before, j as int, merged, pass);
                        assert(!pass(m));
                    }
                },
                None => {
                    out.push(m);
                    proof {
                        lemma_filter_push(before, m, pass);
                        assert forall|tile: usize, kind: DeltaKind|
                            #[trigger] total_delta(out@, tile, kind, out@.len()) == total_delta(
                                msgs,
                                tile,
                                kind,
                                (i + 1) as nat,
                            ) by {
                            lemma_total_prefix(out@, before, tile, kind, before.len());
                            assert(total_delta(before, tile, kind, before.len()) == total_delta(
                                msgs,
                                tile,
                                kind,
                                i as nat,
                            ));
                        }
                        assert forall|tile: usize, kind: DeltaKind|
                            #[trigger] is_addressed(out@, tile, kind, out@.len()) == is_addressed(
                                msgs,
                                tile,
                                kind,
                                (i + 1) as nat,
                            ) by {
                            assert(is_addressed(before, tile, kind, before.len()) == is_addressed(
                                msgs,
                                tile,
                                kind,
                                i as nat,
                            ));
                            if is_addressed(out@, tile, kind, out@.len()) {
                                let k = choose|k: int|
                                    0 <= k < out@.len() && addresses(#[trigger] out@[k], tile, kind);
                                if k == before.len() {
                                    assert(addresses(msgs[i as int], tile, kind));
                                } else {
                                    assert(addresses(before[k], tile, kind));
                                    let w = choose|w: int|
                                        0 <= w < i && addresses(#[trigger] msgs[w], tile, kind);
                                    assert(0 <= w < i + 1 && addresses(msgs[w], tile, kind));
                                }
                            }
                            if is_addressed(msgs, tile, kind, (i + 1) as nat) {
                                let w = choose|w: int|
                                    0 <= w < i + 1 && addresses(#[trigger] msgs[w], tile, kind);
                                if w == i {
                                    assert(addresses(out@[before.len() as int], tile, kind));
                                } else {
                                    assert(is_addressed(msgs, tile, kind, i as nat));
                                    let k = choose|k: int|
                                        0 <= k < before.len() && addresses(
                                            #[trigger] before[k],
                                            tile,
                                            kind,
                                        );
                                    assert(addresses(out@[k], tile, kind));
                                }
                            }
                        }
                        assert forall|a: int, b: int|
                            0 <= a < b < out@.len() && delta_of(#[trigger] out@[a]) is Some
                                && delta_of(#[trigger] out@[b]) is Some implies !(delta_of(
                            out@[a],
                        ).unwrap().tile == delta_of(out@[b]).unwrap().tile && delta_of(out@[a]).unwrap().kind == delta_of(
                            out@[b],
                        ).unwrap().kind) by {
                            if b == before.len() {
                                let d = delta_of(m).unwrap();
                                assert(!is_addressed(before, d.tile, d.kind, before.len()));
                                assert(before[a] == out@[a]);
                                assert(!addresses(before[a], d.tile, d.kind));
                            } else {
                                assert(before[a] == out@[a]);
                                assert(before[b] == out@[b]);
                            }
                        }
                    }
                },
            }
            i += 1;
        }
        proof {
            assert(self.pending@.subrange(0, i as int) =~= self.pending@);
        }
        self.pending = out;
    }

    fn apply_stage(&mut self, map: &mut GridMap, kind: DeltaKind)
        requires
            old(map).wf(),
        ensures
            final(map).wf(),
            final(map).dims() == old(map).dims(),
            final(map).dirty() == old(map).dirty(),
            final(map).resized() == old(map).resized(),
            final(map).entry() == old(map).entry(),
            final(map).exit() == old(map).exit(),
            final(map).cells().len() == old(map).cells().len(),
            forall|idx: usize|
                idx < old(map).cells().len() ==> tile_after_stage(
                    old(map).cells()[idx as int],
                    #[trigger] final(map).cells()[idx as int],
                    old(self)@,
                    idx,
                    kind,
                ),
            final(self)@ == after_stage(old(self)@, kind),
    {
        let mut i: usize = 0;
        let ghost msgs = self.pending@;
        let ghost cells0 = map.cells();
        proof {
            assert forall|idx: usize| idx < cells0.len() implies charge_of(
                #[trigger] map.cells()[idx as int],
            ) == stage_charge(cells0[idx as int], msgs, idx, kind, 0) by {
                lemma_stage_start(cells0[idx as int], msgs, idx, kind);
            }
        }
        while i < self.pending.len()
            invariant
                i <= msgs.len(),
                self.pending@.len() == msgs.len(),
                map.wf(),
                map.dims() == old(map).dims(),
                map.dirty() == old(map).dirty(),
                map.resized() == old(map).resized(),
                map.entry() == old(map).entry(),
                map.exit() == old(map).exit(),
                map.cells().len() == cells0.len(),
                cells0 == old(map).cells(),
                msgs == old(self)@,
                forall|k: int| 0 <= k < i ==> self.pending@[k] == after_stage(msgs, kind)[k],
                forall|k: int| i <= k < msgs.len() ==> self.pending@[k] == msgs[k],
                forall|idx: usize|
                    idx < cells0.len() ==> {
                        let t = cells0[idx as int];
                        let after = #[trigger] map.cells()[idx as int];
                        &&& after.tile_type == t.tile_type
                        &&& after.structure == t.structure
                        &&& charge_of(after) == stage_charge(t, msgs, idx, kind, i as nat)
                        &&& is_addressed(msgs, idx, kind, i as nat) ==> after.affliction is Some
                        &&& !is_addressed(msgs, idx, kind, i as nat) ==> after == t
                    },
            decreases msgs.len() - i,
        {
            let m = self.pending[i];
            let right_kind = match m.payload {
                Payload::ApplyElement(_) => Self::same_kind(kind, DeltaKind::Apply),
                Payload::RemoveElement(_) => Self::same_kind(kind, DeltaKind::Remove),
                _ => false,
            };
            let ghost cells_before = map.cells();
            if !m.handled && right_kind {
                match Self::delta(&m) {
                    Some(d) => {
                        let ghost tile_before = cells_before[d.tile as int];
                        match kind {
                            DeltaKind::Apply => {
                                map.apply_affliction(d.tile, &d.amount);
                            },
                            DeltaKind::Remove => {
                                map.remove_affliction(d.tile, &d.amount);
                            },
                        }
                        proof {
                            if d.tile < cells0.len() {
                                lemma_tile_charge(tile_before, d.amount);
                                lemma_total_bounded(msgs, d.tile, kind, i as nat);
                                d.amount.lemma_bounded();
                                crate::tile::carried(cells0[d.tile as int]).lemma_bounded();
                                lemma_charge_algebra(
                                    charge_of(cells0[d.tile as int]),
                                    total_delta(msgs, d.tile, kind, i as nat),
                                    d.amount@,
                                );
                            }
                        }
                    },
                    None => {},
                }
                self.pending.set(
                    i,
                    Message {
                        sender: m.sender,
                        target: m.target,
                        payload: m.payload,
                        handled: true,
                    },
                );
            }
            proof {
                assert forall|idx: usize| idx < cells0.len() implies {
                    let t = cells0[idx as int];
                    let after = #[trigger] map.cells()[idx as int];
                    &&& after.tile_type == t.tile_type
                    &&& after.structure == t.structure
                    &&& charge_of(after) == stage_charge(t, msgs, idx, kind, (i + 1) as nat)
                    &&& is_addressed(msgs, idx, kind, (i + 1) as nat) ==> after.affliction is Some
                    &&& !is_addressed(msgs, idx, kind, (i + 1) as nat) ==> after == t
                } by {
                    let before = cells_before[idx as int];
                    assert(charge_of(before) == stage_charge(
                        cells0[idx as int],
                        msgs,
                        idx,
                        kind,
                        i as nat,
                    ));
                    if addresses(msgs[i as int], idx, kind) {
                        assert(is_addressed(msgs, idx, kind, (i + 1) as nat));
                    } else {
                        assert(map.cells()[idx as int] == before);
                        if is_addressed(msgs, idx, kind, (i + 1) as nat) {
                            let w = choose|w: int|
                                0 <= w < i + 1 && addresses(#[trigger] msgs[w], idx, kind);
                            assert(is_addressed(msgs, idx, kind, i as nat));
                        }
                    }
                    if is_addressed(msgs, idx, kind, i as nat) {
                        let w = choose|w: int|
                            0 <= w < i && addresses(#[trigger] msgs[w], idx, kind);
                        assert(0 <= w < i + 1 && addresses(msgs[w], idx, kind));
                    }
                }
            }
            i += 1;
        }
        proof {
            assert(self.pending@ =~= after_stage(msgs, kind));
            assert forall|idx: usize| idx < cells0.len() implies tile_after_stage(
                cells0[idx as int],
                #[trigger] map.cells()[idx as int],
                msgs,
                idx,
                kind,
            ) by {}
        }
    }

    /// Takes from each tile what the pending removals ask, and marks every
    /// pending removal as handled. A removal without a target, or meant for
    /// a tile that the grid does not have, is marked and changes nothing.
    pub fn apply_removals(&mut self, map: &mut GridMap)
        requires
            old(map).wf(),
        ensures
            final(map).wf(),
            final(map).dims() == old(map).dims(),
            final(map).dirty() == old(map).dirty(),
            final(map).resized() == old(map).resized(),
            final(map).entry() == old(map).entry(),
            final(map).exit() == old(map).exit(),
            final(map).cells().len() == old(map).cells().len(),
            forall|idx: usize|
                idx < old(map).cells().len() ==> tile_after_stage(
                    old(map).cells()[idx as int],
                    #[trigger] final(map).cells()[idx as int],
                    old(self)@,
                    idx,
                    DeltaKind::Remove,
                ),
            final(self)@ == after_stage(old(self)@, DeltaKind::Remove),
    {
        self.apply_stage(map, DeltaKind::Remove);
    }

    /// Adds to each tile what the pending additions ask, and marks every
    /// pending addition as handled. An addition without a target, or meant
    /// for a tile that the grid does not have, is marked and changes nothing.
    pub fn apply_additions(&mut self, map: &mut GridMap)
        requires
            old(map).wf(),
        ensures
            final(map).wf(),
            final(map).dims() == old(map).dims(),
            final(map).dirty() == old(map).dirty(),
            final(map).resized() == old(map).resized(),
            final(map).entry() == old(map).entry(),
            final(map).exit() == old(map).exit(),
            final(map).cells().len() == old(map).cells().len(),
            forall|idx: usize|
                idx < old(map).cells().len() ==> tile_after_stage(
                    old(map).cells()[idx as int],
                    #[trigger] final(map).cells()[idx as int],
                    old(self)@,
                    idx,
                    DeltaKind::Apply,
                ),
            final(self)@ == after_stage(old(self)@, DeltaKind::Apply),
    {
        self.apply_stage(map, DeltaKind::Apply);
    }

    fn holds(list: &Vec<usize>, tile: usize) -> (r: bool)
        ensures
            r == list@.contains(tile),
    {
        let mut k: usize = 0;
        while k < list.len()
            invariant
                k <= list@.len(),
                forall|j: int| 0 <= j < k ==> list@[j] != tile,
            decreases list@.len() - k,
        {
            if list[k] == tile {
                return true;
            }
            k += 1;
        }
        false
    }

    /// The tiles among the first `count` that some pending message wants to
    /// change the charge of, each once, in the order in which they are first
    /// mentioned.
    pub fn addressed_tiles(&self, count: usize) -> (tiles: Vec<usize>)
        ensures
            tiles@.no_duplicates(),
            forall|idx: usize|
                tiles@.contains(idx) <==> idx < count && is_touched(self@, idx, self@.len()),
    {
        let mut tiles: Vec<usize> = Vec::new();
        let mut i: usize = 0;
        while i < self.pending.len()
            invariant
                i <= self.pending@.len(),
                tiles@.no_duplicates(),
                forall|idx: usize|
                    tiles@.contains(idx) <==> idx < count && is_touched(self@, idx, i as nat),
            decreases self.pending@.len() - i,
        {
            let ghost before = tiles@;
            let ghost msgs = self.pending@;
            match Self::delta(&self.pending[i]) {
                Some(d) => {
                    if d.tile < count && !Self::holds(&tiles, d.tile) {
                        tiles.push(d.tile);
                    }
                },
                None => {},
            }
            proof {
                assert forall|idx: usize| tiles@.contains(idx) <==> idx < count && is_touched(
                    msgs,
                    idx,
                    (i + 1) as nat,
                ) by {
                    let here = delta_of(msgs[i as int]) is Some && delta_of(
                        msgs[i as int],
                    ).unwrap().tile == idx;
                    if tiles@.contains(idx) {
                        let k = choose|k: int| 0 <= k < tiles@.len() && tiles@[k] == idx;
                        if k < before.len() {
                            assert(before[k] == idx);
                            assert(before.contains(idx));
                            lemma_touched_grows(msgs, idx, i as nat);
                        } else {
                            assert(here);
                            lemma_touched_here(msgs, idx, i as int);
                        }
                    }
                    if idx < count && is_touched(msgs, idx, (i + 1) as nat) {
                        lemma_touched_step(msgs, idx, i as nat);
                        if is_touched(msgs, idx, i as nat) {
                            assert(before.contains(idx));
                            let k = choose|k: int| 0 <= k < before.len() && before[k] == idx;
                            assert(tiles@[k] == idx);
                        } else {
                            assert(here);
                            if before.contains(idx) {
                            } else {
                                assert(tiles@[before.len() as int] == idx);
                            }
                        }
                    }
                }
            }
            i += 1;
        }
        tiles
    }

    /// Runs one cycle: merge, take away, add, reap. Each tile that a pending
    /// message is meant for ends up with its charge less the sum of the
    /// removals plus the sum of the additions, the removals first. Element
    /// messages leave the bus, whether or not their target exists; every
    /// other pending message stays, in its place. The result lists the tiles
    /// whose charge was touched, each once.
    pub fn resolve(&mut self, map: &mut GridMap) -> (changed: Vec<usize>)
        requires
            old(map).wf(),
        ensures
            final(map).wf(),
            final(map).dims() == old(map).dims(),
            final(map).dirty() == old(map).dirty(),
            final(map).resized() == old(map).resized(),
            final(map).entry() == old(map).entry(),
            final(map).exit() == old(map).exit(),
            final(map).cells().len() == old(map).cells().len(),
            forall|idx: usize|
                idx < old(map).cells().len() ==> tile_after_cycle(
                    old(map).cells()[idx as int],
                    #[trigger] final(map).cells()[idx as int],
                    old(self)@,
                    idx,
                ),
            final(self)@ == old(self)@.filter(remaining()),
            changed@.no_duplicates(),
            forall|idx: usize|
                changed@.contains(idx) <==> idx < old(map).cells().len() && is_touched(
                    old(self)@,
                    idx,
                    old(self)@.len(),
                ),
    {
        let ghost msgs0 = self@;
        let ghost cells0 = map.cells();
        self.consolidate();
        let ghost msgs1 = self@;
        let changed = self.addressed_tiles(map.tile_count());
        self.apply_removals(map);
        let ghost msgs2 = self@;
        let ghost cells1 = map.cells();
        self.apply_additions(map);
        self.clear_handled_messages();
        proof {
            lemma_cycle_queue(msgs1);
            lemma_filter_twice(msgs1, passing(), remaining());
            lemma_filter_twice(msgs0, passing(), remaining());
            assert forall|idx: usize| idx < cells0.len() implies tile_after_cycle(
                cells0[idx as int],
                #[trigger] map.cells()[idx as int],
                msgs0,
                idx,
            ) by {
                let t0 = cells0[idx as int];
                let t1 = cells1[idx as int];
                let t2 = map.cells()[idx as int];
                assert(tile_after_stage(t0, t1, msgs1, idx, DeltaKind::Remove));
                assert(tile_after_stage(t1, t2, msgs2, idx, DeltaKind::Apply));
                lemma_stage_keeps_other(msgs1, idx, msgs1.len());
                assert(total_delta(msgs1, idx, DeltaKind::Remove, msgs1.len()) == total_delta(
                    msgs0,
                    idx,
                    DeltaKind::Remove,
                    msgs0.len(),
                ));
                assert(total_delta(msgs1, idx, DeltaKind::Apply, msgs1.len()) == total_delta(
                    msgs0,
                    idx,
                    DeltaKind::Apply,
                    msgs0.len(),
                ));
                assert(is_addressed(msgs1, idx, DeltaKind::Remove, msgs1.len()) == is_addressed(
                    msgs0,
                    idx,
                    DeltaKind::Remove,
                    msgs0.len(),
                ));
                assert(is_addressed(msgs1, idx, DeltaKind::Apply, msgs1.len()) == is_addressed(
                    msgs0,
                    idx,
                    DeltaKind::Apply,
                    msgs0.len(),
                ));
                if !is_addressed(msgs0, idx, DeltaKind::Remove, msgs0.len()) {
                    lemma_total_unaddressed(msgs0, idx, DeltaKind::Remove, msgs0.len());
                }
                if !is_addressed(msgs0, idx, DeltaKind::Apply, msgs0.len()) {
                    lemma_total_unaddressed(msgs0, idx, DeltaKind::Apply, msgs0.len());
                }
                lemma_touched_kinds(msgs0, idx, msgs0.len());
                crate::tile::carried(t0).lemma_bounded();
                crate::tile::carried(t1).lemma_bounded();
                lemma_charge_algebra(charge_of(t0), Map::empty(), Map::empty());
                lemma_charge_algebra(charge_of(t1), Map::empty(), Map::empty());
            }
            assert forall|idx: usize|
                changed@.contains(idx) <==> idx < cells0.len() && is_touched(
                    msgs0,
                    idx,
                    msgs0.len(),
                ) by {
                lemma_touched_kinds(msgs0, idx, msgs0.len());
                lemma_touched_kinds(msgs1, idx, msgs1.len());
            }
        }
        changed
    }

    /// Whether a message of the kind `kind` is pending.
    pub fn has_pending(&self, kind: PayloadKind) -> (r: bool)
        ensures
            r == exists|i: int| 0 <= i < self@.len() && wanted(kind)(#[trigger] self@[i]),
    {
        let mut i: usize = 0;
        while i < self.pending.len()
            invariant
                i <= self.pending@.len(),
                forall|k: int| 0 <= k < i ==> !wanted(kind)(#[trigger] self.pending@[k]),
            decreases self.pending@.len() - i,
        {
            let m = self.pending[i];
            if !m.handled && same_payload_kind(m.payload.kind(), kind) {
                assert(wanted(kind)(self@[i as int]));
                return true;
            }
            i += 1;
        }
        assert(forall|k: int| 0 <= k < self@.len() ==> !wanted(kind)(#[trigger] self@[k]));
        false
    }

    /// Hands out the pending messages of the kind `kind`, oldest first, and
    /// marks each of them as handled. Every other message stays as it is.
    pub fn handle_kind(&mut self, kind: PayloadKind) -> (taken: Vec<Message>)
        ensures
            taken@ == old(self)@.filter(wanted(kind)),
            final(self)@ == after_handling(old(self)@, kind),
    {
        let mut taken: Vec<Message> = Vec::new();
        let mut i: usize = 0;
        let ghost msgs = self.pending@;
        let ghost want = wanted(kind);
        while i < self.pending.len()
            invariant
                i <= msgs.len(),
                self.pending@.len() == msgs.len(),
                msgs == old(self)@,
                want == wanted(kind),
                taken@ == msgs.subrange(0, i as int).filter(want),
                forall|k: int| 0 <= k < i ==> self.pending@[k] == after_handling(msgs, kind)[k],
                forall|k: int| i <= k < msgs.len() ==> self.pending@[k] == msgs[k],
            decreases msgs.len() - i,
        {
            let m = self.pending[i];
            proof {
                assert(msgs.subrange(0, i + 1) =~= msgs.subrange(0, i as int).push(m));
                lemma_filter_push(msgs.subrange(0, i as int), m, want);
            }
            if !m.handled && same_payload_kind(m.payload.kind(), kind) {
                taken.push(m);
                self.pending.set(
                    i,
                    Message {
                        sender: m.sender,
                        target: m.target,
                        payload: m.payload,
                        handled: true,
                    },
                );
            }
            i += 1;
        }
        proof {
            assert(msgs.subrange(0, i as int) =~= msgs);
            assert(self.pending@ =~= after_handling(msgs, kind));
        }
        taken
    }

    /// Drops every handled message; the others keep their order.
    pub fn clear_handled_messages(&mut self)
        ensures
            final(self)@ == old(self)@.filter(unhandled()),
    {
        let mut kept: Vec<Message> = Vec::new();
        let mut i: usize = 0;
        let ghost live = unhandled();
        while i < self.pending.len()
            invariant
                i <= self.pending@.len(),
                self.pending@ == old(self).pending@,
                live == unhandled(),
                kept@ == self.pending@.subrange(0, i as int).filter(live),
            decreases self.pending@.len() - i,
        {
            let m = self.pending[i];
            proof {
                let msgs = self.pending@;
                assert(msgs.subrange(0, i + 1) =~= msgs.subrange(0, i as int).push(m));
                lemma_filter_push(msgs.subrange(0, i as int), m, live);
                lemma_filter_push(kept@, m, live);
            }
            if !m.handled {
                kept.push(m);
            }
            i += 1;
        }
        proof {
            assert(self.pending@.subrange(0, i as int) =~= self.pending@);
        }
        self.pending = kept;
    }
}

/// Whether any of the first `n` messages is a pending change of the charge
/// of the tile `tile`, in either direction.
pub open spec fn is_touched(msgs: Seq<Message>, tile: usize, n: nat) -> bool {
    exists|i: int|
        0 <= i < n && delta_of(#[trigger] msgs[i]) is Some && delta_of(msgs[i]).unwrap().tile
            == tile
}

/// The test for messages that a cycle leaves on the bus: pending ones that
/// do not ask for a change of charge.
pub open spec fn remaining() -> spec_fn(Message) -> bool {
    |m: Message| !m.handled && !is_element_message(m)
}

/// What the tile `idx` looks like after a cycle resolved `msgs`, starting
/// from `t`: untouched where no message is meant for it; otherwise it
/// carries an affliction, less the sum of the removals and then plus the
/// sum of the additions.
pub open spec fn tile_after_cycle(t: Tile, after: Tile, msgs: Seq<Message>, idx: usize) -> bool {
    if is_touched(msgs, idx, msgs.len()) {
        &&& after.tile_type == t.tile_type
        &&& after.structure == t.structure
        &&& after.affliction is Some
        &&& charge_of(after) == combined(
            reduced(charge_of(t), total_delta(msgs, idx, DeltaKind::Remove, msgs.len())),
            total_delta(msgs, idx, DeltaKind::Apply, msgs.len()),
        )
    } else {
        after == t
    }
}

proof fn lemma_touched_grows(msgs: Seq<Message>, idx: usize, n: nat)
    requires
        is_touched(msgs, idx, n),
    ensures
        is_touched(msgs, idx, n + 1),
{
    let w = choose|w: int|
        0 <= w < n && delta_of(#[trigger] msgs[w]) is Some && delta_of(msgs[w]).unwrap().tile
            == idx;
    assert(0 <= w < n + 1 && delta_of(msgs[w]) is Some && delta_of(msgs[w]).unwrap().tile == idx);
}

proof fn lemma_touched_here(msgs: Seq<Message>, idx: usize, i: int)
    requires
        0 <= i,
        delta_of(msgs[i]) is Some,
        delta_of(msgs[i]).unwrap().tile == idx,
    ensures
        is_touched(msgs, idx, (i + 1) as nat),
{
}

proof fn lemma_touched_step(msgs: Seq<Message>, idx: usize, n: nat)
    requires
        is_touched(msgs, idx, n + 1),
    ensures
        is_touched(msgs, idx, n) || (delta_of(msgs[n as int]) is Some && delta_of(
            msgs[n as int],
        ).unwrap().tile == idx),
{
    let w = choose|w: int|
        0 <= w < n + 1 && delta_of(#[trigger] msgs[w]) is Some && delta_of(msgs[w]).unwrap().tile
            == idx;
    if w < n {
        assert(0 <= w < n && delta_of(msgs[w]) is Some && delta_of(msgs[w]).unwrap().tile == idx);
    }
}

/// A tile is touched exactly when a removal or an addition is meant for it.
pub proof fn lemma_touched_kinds(msgs: Seq<Message>, idx: usize, n: nat)
    ensures
        is_touched(msgs, idx, n) <==> is_addressed(msgs, idx, DeltaKind::Remove, n) || is_addressed(
            msgs,
            idx,
            DeltaKind::Apply,
            n,
        ),
{
    if is_touched(msgs, idx, n) {
        let w = choose|w: int|
            0 <= w < n && delta_of(#[trigger] msgs[w]) is Some && delta_of(msgs[w]).unwrap().tile
                == idx;
        if delta_of(msgs[w]).unwrap().kind == DeltaKind::Remove {
            assert(addresses(msgs[w], idx, DeltaKind::Remove));
        } else {
            assert(addresses(msgs[w], idx, DeltaKind::Apply));
        }
    }
    if is_addressed(msgs, idx, DeltaKind::Remove, n) {
        let w = choose|w: int| 0 <= w < n && addresses(#[trigger] msgs[w], idx, DeltaKind::Remove);
        assert(delta_of(msgs[w]) is Some && delta_of(msgs[w]).unwrap().tile == idx);
    }
    if is_addressed(msgs, idx, DeltaKind::Apply, n) {
        let w = choose|w: int| 0 <= w < n && addresses(#[trigger] msgs[w], idx, DeltaKind::Apply);
        assert(delta_of(msgs[w]) is Some && delta_of(msgs[w]).unwrap().tile == idx);
    }
}

/// Where no message is meant for a tile, the sum for it is empty.
pub proof fn lemma_total_unaddressed(msgs: Seq<Message>, idx: usize, kind: DeltaKind, n: nat)
    requires
        !is_addressed(msgs, idx, kind, n),
    ensures
        total_delta(msgs, idx, kind, n) == Map::<Element, nat>::empty(),
    decreases n,
{
    if n > 0 {
        assert(!addresses(msgs[n - 1], idx, kind));
        assert(!is_addressed(msgs, idx, kind, (n - 1) as nat)) by {
            if is_addressed(msgs, idx, kind, (n - 1) as nat) {
                let w = choose|w: int| 0 <= w < n - 1 && addresses(#[trigger] msgs[w], idx, kind);
                assert(0 <= w < n && addresses(msgs[w], idx, kind));
            }
        }
        lemma_total_unaddressed(msgs, idx, kind, (n - 1) as nat);
    }
}

/// Resolving the removals leaves the additions as they were.
pub proof fn lemma_stage_keeps_other(msgs: Seq<Message>, idx: usize, n: nat)
    requires
        n <= msgs.len(),
    ensures
        total_delta(after_stage(msgs, DeltaKind::Remove), idx, DeltaKind::Apply, n) == total_delta(
            msgs,
            idx,
            DeltaKind::Apply,
            n,
        ),
        is_addressed(after_stage(msgs, DeltaKind::Remove), idx, DeltaKind::Apply, n)
            == is_addressed(msgs, idx, DeltaKind::Apply, n),
    decreases n,
{
    let after = after_stage(msgs, DeltaKind::Remove);
    assert forall|i: int| 0 <= i < msgs.len() implies addresses(
        #[trigger] after[i],
        idx,
        DeltaKind::Apply,
    ) == addresses(msgs[i], idx, DeltaKind::Apply) && (addresses(msgs[i], idx, DeltaKind::Apply)
        ==> after[i] == msgs[i]) by {}
    if n > 0 {
        lemma_stage_keeps_other(msgs, idx, (n - 1) as nat);
    }
    if is_addressed(after, idx, DeltaKind::Apply, n) {
        let w = choose|w: int| 0 <= w < n && addresses(#[trigger] after[w], idx, DeltaKind::Apply);
        assert(addresses(msgs[w], idx, DeltaKind::Apply));
    }
    if is_addressed(msgs, idx, DeltaKind::Apply, n) {
        let w = choose|w: int| 0 <= w < n && addresses(#[trigger] msgs[w], idx, DeltaKind::Apply);
        assert(addresses(after[w], idx, DeltaKind::Apply));
    }
}

/// After both stages, the pending messages are those that were pending and
/// do not ask for a change of charge.
pub proof fn lemma_cycle_queue(msgs: Seq<Message>)
    ensures
        after_stage(after_stage(msgs, DeltaKind::Remove), DeltaKind::Apply).filter(unhandled())
            == msgs.filter(remaining()),
    decreases msgs.len(),
{
    reveal(Seq::filter);
    let staged = after_stage(after_stage(msgs, DeltaKind::Remove), DeltaKind::Apply);
    if msgs.len() > 0 {
        let rest = msgs.drop_last();
        lemma_cycle_queue(rest);
        assert(staged.drop_last() =~= after_stage(
            after_stage(rest, DeltaKind::Remove),
            DeltaKind::Apply,
        ));
    } else {
        assert(staged =~= msgs);
    }
}

/// Filtering by a test and then by a stricter one is filtering by the
/// stricter one.
pub proof fn lemma_filter_twice(
    s: Seq<Message>,
    p: spec_fn(Message) -> bool,
    q: spec_fn(Message) -> bool,
)
    requires
        forall|m: Message| #[trigger] q(m) ==> p(m),
    ensures
        s.filter(p).filter(q) == s.filter(q),
    decreases s.len(),
{
    reveal(Seq::filter);
    if s.len() > 0 {
        lemma_filter_twice(s.drop_last(), p, q);
        if p(s.last()) {
            lemma_filter_push(s.drop_last().filter(p), s.last(), q);
        }
    }
}

/// Whether two kinds are the same.
pub fn same_payload_kind(a: PayloadKind, b: PayloadKind) -> (r: bool)
    ensures
        r == (a == b),
{
    a == b
}

/// The charge of the tile `idx` after a stage resolved the first `n`
/// messages.
pub open spec fn stage_charge(t: Tile, msgs: Seq<Message>, idx: usize, kind: DeltaKind, n: nat) -> Map<
    Element,
    nat,
> {
    match kind {
        DeltaKind::Apply => combined(charge_of(t), total_delta(msgs, idx, kind, n)),
        DeltaKind::Remove => reduced(charge_of(t), total_delta(msgs, idx, kind, n)),
    }
}

proof fn lemma_stage_start(t: Tile, msgs: Seq<Message>, idx: usize, kind: DeltaKind)
    ensures
        charge_of(t) == stage_charge(t, msgs, idx, kind, 0),
{
    crate::tile::carried(t).lemma_bounded();
    lemma_charge_algebra(charge_of(t), Map::empty(), Map::empty());
}

/// Filtering a queue with one more message: the message is kept at the end
/// where it passes the test, and dropped where it does not.
pub proof fn lemma_filter_push(s: Seq<Message>, m: Message, pred: spec_fn(Message) -> bool)
    ensures
        s.push(m).filter(pred) == (if pred(m) {
            s.filter(pred).push(m)
        } else {
            s.filter(pred)
        }),
{
    reveal(Seq::filter);
    assert(s.push(m).drop_last() =~= s);
}

/// Replacing a message that does not satisfy `pred` by another that does not
/// leaves the messages that do as they were.
pub proof fn lemma_filter_update(s: Seq<Message>, j: int, m: Message, pred: spec_fn(Message) -> bool)
    requires
        0 <= j < s.len(),
        !pred(s[j]),
        !pred(m),
    ensures
        s.update(j, m).filter(pred) == s.filter(pred),
    decreases s.len(),
{
    reveal(Seq::filter);
    let u = s.update(j, m);
    if j == s.len() - 1 {
        assert(u.drop_last() =~= s.drop_last());
    } else {
        lemma_filter_update(s.drop_last(), j, m, pred);
        assert(u.drop_last() =~= s.drop_last().update(j, m));
        assert(u.last() == s.last());
    }
}


/// `v`, but no more than an amount can be.
pub open spec fn capped_amount(v: int) -> nat {
    if v > u32::MAX {
        u32::MAX as nat
    } else if v < 0 {
        0
    } else {
        v as nat
    }
}

/// Whether `m` is a pending addition of `amount` of `e`, and of nothing
/// else, to the tile `idx`.
pub open spec fn adds_to(m: Message, idx: usize, e: Element, amount: u32) -> bool {
    &&& !m.handled
    &&& m.target == Some(Target(idx))
    &&& m.payload is ApplyElement
    &&& m.payload->ApplyElement_0@ == Map::<Element, nat>::empty().insert(e, amount as nat)
}

/// Additions to one tile add up. Where each of the first `n` messages adds
/// `amount` of `e` to the tile `idx`, their total is `n` times `amount` of
/// `e`, up to the ceiling of an amount, and nothing else; nothing is taken
/// from the tile; and the tile counts as touched.
pub proof fn lemma_additions_add_up(
    msgs: Seq<Message>,
    idx: usize,
    e: Element,
    amount: u32,
    n: nat,
)
    requires
        n <= msgs.len(),
        forall|i: int| 0 <= i < n ==> adds_to(#[trigger] msgs[i], idx, e, amount),
    ensures
        n > 0 ==> total_delta(msgs, idx, DeltaKind::Apply, n) == Map::<Element, nat>::empty().insert(
            e,
            capped_amount(n * amount),
        ),
        n == 0 ==> total_delta(msgs, idx, DeltaKind::Apply, n) == Map::<Element, nat>::empty(),
        total_delta(msgs, idx, DeltaKind::Remove, n) == Map::<Element, nat>::empty(),
        n > 0 ==> is_touched(msgs, idx, n),
    decreases n,
{
    if n > 0 {
        lemma_additions_add_up(msgs, idx, e, amount, (n - 1) as nat);
        let m = msgs[n - 1];
        assert(adds_to(m, idx, e, amount));
        assert(addresses(m, idx, DeltaKind::Apply));
        assert(!addresses(m, idx, DeltaKind::Remove));
        let before = total_delta(msgs, idx, DeltaKind::Apply, (n - 1) as nat);
        let one = Map::<Element, nat>::empty().insert(e, amount as nat);
        assert((n - 1) * amount + amount == n * amount) by (nonlinear_arith);
        assert(0 <= (n - 1) * amount) by (nonlinear_arith)
            requires
                n >= 1,
                amount >= 0,
        ;
        assert(combined(before, one) =~= Map::<Element, nat>::empty().insert(
            e,
            capped_amount(n * amount),
        ));
        assert(0 <= n - 1 < n && delta_of(msgs[n - 1]) is Some && delta_of(msgs[n - 1]).unwrap().tile
            == idx);
    }
}

/// A cycle adds up. Where every message of a cycle adds `amount` of `e` to
/// the tile `idx`, the tile holds after the cycle as many times `amount`
/// more of `e` as there were messages, up to the ceiling of an amount;
/// every other element and the tile's type and structure are as they
/// were.
pub proof fn lemma_cycle_adds_up(
    t: Tile,
    after: Tile,
    msgs: Seq<Message>,
    idx: usize,
    e: Element,
    amount: u32,
)
    requires
        msgs.len() > 0,
        forall|i: int| 0 <= i < msgs.len() ==> adds_to(#[trigger] msgs[i], idx, e, amount),
        tile_after_cycle(t, after, msgs, idx),
    ensures
        crate::elements::amount_of(charge_of(after), e) == crate::elements::clamped_sum(
            crate::elements::amount_of(charge_of(t), e),
            capped_amount(msgs.len() * amount),
        ),
        forall|o: Element|
            o != e ==> crate::elements::amount_of(charge_of(after), o)
                == crate::elements::amount_of(charge_of(t), o),
        after.tile_type == t.tile_type,
        after.structure == t.structure,
{
    lemma_additions_add_up(msgs, idx, e, amount, msgs.len());
    let added = Map::<Element, nat>::empty().insert(e, capped_amount(msgs.len() * amount));
    assert(reduced(charge_of(t), Map::<Element, nat>::empty()) =~= charge_of(t));
    assert(added.dom().contains(e));
    assert forall|o: Element| o != e implies crate::elements::amount_of(charge_of(after), o)
        == crate::elements::amount_of(charge_of(t), o) by {
        assert(!added.dom().contains(o));
    }
}

/// A cycle reaps every change of charge: a queue that holds nothing else
/// is empty after the cycle.
pub proof fn lemma_cycle_reaps(msgs: Seq<Message>)
    requires
        forall|i: int| 0 <= i < msgs.len() ==> is_element_message(#[trigger] msgs[i]),
    ensures
        msgs.filter(remaining()) == Seq::<Message>::empty(),
    decreases msgs.len(),
{
    reveal(Seq::filter);
    if msgs.len() > 0 {
        lemma_cycle_reaps(msgs.drop_last());
        assert(msgs =~= msgs.drop_last().push(msgs.last()));
        lemma_filter_push(msgs.drop_last(), msgs.last(), remaining());
    }
}

} // verus!
