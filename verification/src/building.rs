//! Building: the requests to put up a tower, to man one and to sell one,
//! and what becomes of them.

use crate::gold::send_change_gold_message;
use crate::gold::ChangeGold;
use crate::gold::Gold;
use crate::knights::status_in;
use crate::knights::KUsageStatus;
use crate::knights::Knight;
use crate::knights::KnightStatuses;
use crate::map::in_bounds;
use crate::map::index_of;
use crate::map::GridMap;
use crate::messages::after_handling;
use crate::messages::notice;
use crate::messages::wanted;
use crate::messages::EffectBus;
use crate::messages::Message;
use crate::messages::Payload;
use crate::messages::PayloadKind;
use crate::messages::Target;
use crate::system_alerts::create_system_alert_message;
use crate::system_alerts::with_alert;
use crate::system_alerts::AlertView;
use crate::system_alerts::SystemAlerts;
use crate::tile::Tile;
use crate::tile::TileType;
use crate::towers::add_knight_to_tower;
use crate::towers::first_tower_at;
use crate::towers::manned;
use crate::towers::spawn_tower;
use crate::towers::tower_at;
use crate::towers::BuildTower;
use crate::towers::PlaceKnight;
use crate::towers::Tower;
use crate::towers::TOWER_COST;
use vstd::prelude::*;

verus! {

/// What becomes of a request to build a tower.
#[derive(Copy, Clone, Debug, PartialEq, Eq, Structural)]
pub enum BuildVerdict {
    /// The tower is built and paid for.
    Built,
    /// The site is fine, the purse is not.
    NotEnoughGold,
    /// The site is not a barren tile of the grid, or a tower stands there.
    InvalidLocation,
}

/// Whether a tower may be built at the location: it is a barren tile of the
/// grid and no tower stands there.
pub open spec fn site_is_free(
    dims: (usize, usize),
    cells: Seq<Tile>,
    towers: Seq<Tower>,
    order: BuildTower,
) -> bool {
    in_bounds(dims, order.location) && cells[index_of(dims, order.location)].tile_type
        == TileType::Barren && first_tower_at(towers, order.location, towers.len()) is None
}

/// What becomes of a request to build a tower: the site is looked at first,
/// the purse second.
pub open spec fn build_verdict(
    dims: (usize, usize),
    cells: Seq<Tile>,
    towers: Seq<Tower>,
    gold: int,
    order: BuildTower,
) -> BuildVerdict {
    if !site_is_free(dims, cells, towers, order) {
        BuildVerdict::InvalidLocation
    } else if gold >= TOWER_COST {
        BuildVerdict::Built
    } else {
        BuildVerdict::NotEnoughGold
    }
}

/// Decides what becomes of a request to build a tower.
pub fn judge_build(map: &GridMap, towers: &Vec<Tower>, gold: &Gold, order: BuildTower) -> (v:
    BuildVerdict)
    requires
        map.wf(),
    ensures
        v == build_verdict(map.dims(), map.cells(), towers@, gold.0 as int, order),
{
    let barren = match map.tile_type_at_coord(order.location) {
        Ok(tile_type) => match tile_type {
            TileType::Barren => true,
            _ => false,
        },
        Err(_) => false,
    };
    let free = barren && tower_at(towers, order.location).is_none();
    if !free {
        BuildVerdict::InvalidLocation
    } else if gold.get() >= TOWER_COST {
        BuildVerdict::Built
    } else {
        BuildVerdict::NotEnoughGold
    }
}

/// The towers, the alerts on show, and the bills sent to the purse.
pub struct Works {
    pub towers: Seq<Tower>,
    pub alerts: Seq<AlertView>,
    pub bills: Seq<Message>,
}

/// The bill for one tower.
pub open spec fn tower_bill() -> Message {
    notice(Payload::ChangeGold(ChangeGold((-TOWER_COST) as i32)))
}

/// The works after one request to build a tower. The purse is read, not
/// changed: the bill is paid when the purse resolves its changes.
pub open spec fn after_order(
    dims: (usize, usize),
    cells: Seq<Tile>,
    gold: int,
    before: Works,
    m: Message,
) -> Works {
    match m.payload {
        Payload::BuildTower(order) => match build_verdict(dims, cells, before.towers, gold, order) {
            BuildVerdict::Built => Works {
                towers: before.towers.push(
                    Tower { location: order.location, t_type: order.t_type, knight: None },
                ),
                alerts: before.alerts,
                bills: before.bills.push(tower_bill()),
            },
            BuildVerdict::NotEnoughGold => Works {
                towers: before.towers,
                alerts: with_alert(before.alerts, "Not enough gold."@),
                bills: before.bills,
            },
            BuildVerdict::InvalidLocation => Works {
                towers: before.towers,
                alerts: with_alert(before.alerts, "Invalid Location"@),
                bills: before.bills,
            },
        },
        _ => before,
    }
}

/// The works after the first `n` of the requests, one after the other.
pub open spec fn after_orders(
    dims: (usize, usize),
    cells: Seq<Tile>,
    gold: int,
    start: Works,
    orders: Seq<Message>,
    n: nat,
) -> Works
    decreases n,
{
    if n == 0 {
        start
    } else {
        after_order(
            dims,
            cells,
            gold,
            after_orders(dims, cells, gold, start, orders, (n - 1) as nat),
            orders[n - 1],
        )
    }
}

/// Resolves the pending requests to build a tower, oldest first, and marks
/// each as handled. A tower is built where the site is a barren tile of the
/// grid without a tower and the purse holds the price; the bill is sent to
/// the purse as a message of its own. Otherwise an alert says what was
/// wrong.
pub fn handle_build_tower_messages(
    bus: &mut EffectBus,
    map: &GridMap,
    towers: &mut Vec<Tower>,
    alerts: &mut SystemAlerts,
    gold: &Gold,
)
    requires
        map.wf(),
    ensures
        ({
            let orders = old(bus)@.filter(wanted(PayloadKind::BuildTower));
            let end = after_orders(
                map.dims(),
                map.cells(),
                gold.0 as int,
                Works { towers: old(towers)@, alerts: old(alerts)@, bills: seq![] },
                orders,
                orders.len(),
            );
            &&& final(towers)@ == end.towers
            &&& final(alerts)@ == end.alerts
            &&& final(bus)@ == after_handling(old(bus)@, PayloadKind::BuildTower) + end.bills
        }),
{
    let taken = bus.handle_kind(PayloadKind::BuildTower);
    let ghost start = Works { towers: old(towers)@, alerts: old(alerts)@, bills: seq![] };
    let ghost marked = bus@;
    let mut i: usize = 0;
    assert(bus@ =~= marked + start.bills);
    while i < taken.len()
        invariant
            map.wf(),
            i <= taken@.len(),
            towers@ == after_orders(
                map.dims(),
                map.cells(),
                gold.0 as int,
                start,
                taken@,
                i as nat,
            ).towers,
            alerts@ == after_orders(
                map.dims(),
                map.cells(),
                gold.0 as int,
                start,
                taken@,
                i as nat,
            ).alerts,
            bus@ == marked + after_orders(
                map.dims(),
                map.cells(),
                gold.0 as int,
                start,
                taken@,
                i as nat,
            ).bills,
        decreases taken@.len() - i,
    {
        let ghost before = after_orders(
            map.dims(),
            map.cells(),
            gold.0 as int,
            start,
            taken@,
            i as nat,
        );
        match taken[i].payload {
            Payload::BuildTower(order) => {
                match judge_build(map, towers, gold, order) {
                    BuildVerdict::Built => {
                        let _ = spawn_tower(towers, order.location, order.t_type);
                        send_change_gold_message(bus, -TOWER_COST);
                        assert(bus@ =~= marked + before.bills.push(tower_bill()));
                    },
                    BuildVerdict::NotEnoughGold => {
                        create_system_alert_message(alerts, "Not enough gold.");
                    },
                    BuildVerdict::InvalidLocation => {
                        create_system_alert_message(alerts, "Invalid Location");
                    },
                }
            },
            _ => {},
        }
        i += 1;
    }
}

/// What becomes of a request to send a knight to a tower.
#[derive(Copy, Clone, Debug, PartialEq, Eq, Structural)]
pub enum PlaceVerdict {
    /// The knight mans the tower at this place in the list.
    Placed(usize),
    /// No tower stands at the location.
    NoTower,
    /// The knight is not ready.
    KnightNotReady,
    /// The tower is manned already.
    TowerManned,
}

/// What becomes of a request to send a knight to a tower: the tower is
/// looked for first, then the knight is asked, then the tower's platform.
pub open spec fn place_verdict(
    towers: Seq<Tower>,
    statuses: Map<Knight, KUsageStatus>,
    order: PlaceKnight,
) -> PlaceVerdict {
    match first_tower_at(towers, order.location, towers.len()) {
        None => PlaceVerdict::NoTower,
        Some(idx) => if status_in(statuses, order.knight) != KUsageStatus::Ready {
            PlaceVerdict::KnightNotReady
        } else if towers[idx as int].knight is Some {
            PlaceVerdict::TowerManned
        } else {
            PlaceVerdict::Placed(idx)
        },
    }
}

/// Decides what becomes of a request to send a knight to a tower.
pub fn judge_placement(towers: &Vec<Tower>, statuses: &KnightStatuses, order: PlaceKnight) -> (v:
    PlaceVerdict)
    ensures
        v == place_verdict(towers@, statuses@, order),
        v is Placed ==> v->Placed_0 < towers@.len(),
{
    match tower_at(towers, order.location) {
        None => PlaceVerdict::NoTower,
        Some(idx) => {
            let ready = match statuses.get_status(order.knight) {
                KUsageStatus::Ready => true,
                _ => false,
            };
            if !ready {
                PlaceVerdict::KnightNotReady
            } else if towers[idx].knight.is_some() {
                PlaceVerdict::TowerManned
            } else {
                PlaceVerdict::Placed(idx)
            }
        },
    }
}

/// The towers, the knights' statuses and the alerts on show.
pub struct Garrison {
    pub towers: Seq<Tower>,
    pub statuses: Map<Knight, KUsageStatus>,
    pub alerts: Seq<AlertView>,
}

/// The garrison after one request to send a knight to a tower.
pub open spec fn after_posting(before: Garrison, m: Message) -> Garrison {
    match m.payload {
        Payload::PlaceKnight(order) => match place_verdict(before.towers, before.statuses, order) {
            PlaceVerdict::Placed(idx) => Garrison {
                towers: before.towers.update(
                    idx as int,
                    manned(before.towers[idx as int], Some(order.knight)),
                ),
                statuses: before.statuses.insert(order.knight, KUsageStatus::Busy),
                alerts: before.alerts,
            },
            PlaceVerdict::NoTower => Garrison {
                towers: before.towers,
                statuses: before.statuses,
                alerts: with_alert(
                    before.alerts,
                    "You must place a knight on top of an existing Tower."@,
                ),
            },
            PlaceVerdict::KnightNotReady => Garrison {
                towers: before.towers,
                statuses: before.statuses,
                alerts: with_alert(before.alerts, "You can't use that knight!"@),
            },
            PlaceVerdict::TowerManned => Garrison {
                towers: before.towers,
                statuses: before.statuses,
                alerts: with_alert(before.alerts, "There's already a knight there."@),
            },
        },
        _ => before,
    }
}

/// The garrison after the first `n` of the requests, one after the other.
pub open spec fn after_postings(start: Garrison, orders: Seq<Message>, n: nat) -> Garrison
    decreases n,
{
    if n == 0 {
        start
    } else {
        after_posting(after_postings(start, orders, (n - 1) as nat), orders[n - 1])
    }
}

/// Resolves the pending requests to send a knight to a tower, oldest first,
/// and marks each as handled. A knight who is ready takes the first tower
/// at the location where that tower is not manned, and is busy from then
/// on. Otherwise an alert says what was wrong.
pub fn handle_place_knight_messages(
    bus: &mut EffectBus,
    towers: &mut Vec<Tower>,
    alerts: &mut SystemAlerts,
    knight_statuses: &mut KnightStatuses,
)
    ensures
        final(bus)@ == after_handling(old(bus)@, PayloadKind::PlaceKnight),
        ({
            let orders = old(bus)@.filter(wanted(PayloadKind::PlaceKnight));
            let end = after_postings(
                Garrison {
                    towers: old(towers)@,
                    statuses: old(knight_statuses)@,
                    alerts: old(alerts)@,
                },
                orders,
                orders.len(),
            );
            &&& final(towers)@ == end.towers
            &&& final(knight_statuses)@ == end.statuses
            &&& final(alerts)@ == end.alerts
        }),
{
    let taken = bus.handle_kind(PayloadKind::PlaceKnight);
    let ghost start = Garrison {
        towers: old(towers)@,
        statuses: old(knight_statuses)@,
        alerts: old(alerts)@,
    };
    let mut i: usize = 0;
    while i < taken.len()
        invariant
            i <= taken@.len(),
            towers@ == after_postings(start, taken@, i as nat).towers,
            knight_statuses@ == after_postings(start, taken@, i as nat).statuses,
            alerts@ == after_postings(start, taken@, i as nat).alerts,
        decreases taken@.len() - i,
    {
        match taken[i].payload {
            Payload::PlaceKnight(order) => {
                match judge_placement(towers, knight_statuses, order) {
                    PlaceVerdict::Placed(idx) => {
                        knight_statuses.set_status(order.knight, KUsageStatus::Busy);
                        let _ = add_knight_to_tower(towers, idx, order.knight);
                    },
                    PlaceVerdict::NoTower => {
                        create_system_alert_message(
                            alerts,
                            "You must place a knight on top of an existing Tower.",
                        );
                    },
                    PlaceVerdict::KnightNotReady => {
                        create_system_alert_message(alerts, "You can't use that knight!");
                    },
                    PlaceVerdict::TowerManned => {
                        create_system_alert_message(alerts, "There's already a knight there.");
                    },
                }
            },
            _ => {},
        }
        i += 1;
    }
}

/// Whether one of the first `n` requests is addressed to the tower at
/// `idx`.
pub open spec fn is_sold(orders: Seq<Message>, idx: int, n: nat) -> bool
    decreases n,
{
    n > 0 && (is_sold(orders, idx, (n - 1) as nat) || orders[n - 1].target == Some(
        Target(idx as usize),
    ))
}

/// The statuses after the first `n` requests to sell: the knight of every
/// tower sold is ready again.
pub open spec fn after_sales(
    towers: Seq<Tower>,
    statuses: Map<Knight, KUsageStatus>,
    orders: Seq<Message>,
    n: nat,
) -> Map<Knight, KUsageStatus>
    decreases n,
{
    if n == 0 {
        statuses
    } else {
        let before = after_sales(towers, statuses, orders, (n - 1) as nat);
        match orders[n - 1].target {
            Some(t) => if t.0 < towers.len() && towers[t.0 as int].knight is Some {
                before.insert(towers[t.0 as int].knight->Some_0, KUsageStatus::Ready)
            } else {
                before
            },
            None => before,
        }
    }
}

/// The first `n` towers without those that one of the requests sells.
pub open spec fn unsold(towers: Seq<Tower>, orders: Seq<Message>, n: nat) -> Seq<Tower>
    decreases n,
{
    if n == 0 {
        seq![]
    } else if is_sold(orders, n - 1, orders.len()) {
        unsold(towers, orders, (n - 1) as nat)
    } else {
        unsold(towers, orders, (n - 1) as nat).push(towers[n - 1])
    }
}

/// The places among the first `n` towers of those that one of the
/// requests sells, in rising order.
pub open spec fn sold_among(orders: Seq<Message>, n: nat) -> Seq<usize>
    decreases n,
{
    if n == 0 {
        seq![]
    } else if is_sold(orders, n - 1, orders.len()) {
        sold_among(orders, (n - 1) as nat).push((n - 1) as usize)
    } else {
        sold_among(orders, (n - 1) as nat)
    }
}

/// Resolves the pending requests to sell a tower, oldest first, and marks
/// each as handled. The knight of a tower sold is ready again, and the
/// tower leaves the list; the towers that stay keep their order. A request
/// addressed to no tower of the list does nothing. The result lists the
/// places that the towers sold had in the list, in rising order.
pub fn sell_towers(
    bus: &mut EffectBus,
    towers: &mut Vec<Tower>,
    knight_statuses: &mut KnightStatuses,
) -> (sold: Vec<usize>)
    ensures
        final(bus)@ == after_handling(old(bus)@, PayloadKind::Sell),
        ({
            let orders = old(bus)@.filter(wanted(PayloadKind::Sell));
            &&& final(knight_statuses)@ == after_sales(
                old(towers)@,
                old(knight_statuses)@,
                orders,
                orders.len(),
            )
            &&& final(towers)@ == unsold(old(towers)@, orders, old(towers)@.len())
            &&& sold@ == sold_among(orders, old(towers)@.len())
        }),
{
    let taken = bus.handle_kind(PayloadKind::Sell);
    let count = towers.len();
    let mut gone: Vec<bool> = Vec::new();
    let mut k: usize = 0;
    while k < count
        invariant
            k <= count,
            gone@.len() == k,
            forall|j: int| 0 <= j < k ==> !gone@[j],
        decreases count - k,
    {
        gone.push(false);
        k += 1;
    }
    let mut i: usize = 0;
    while i < taken.len()
        invariant
            i <= taken@.len(),
            towers@ == old(towers)@,
            count == towers@.len(),
            gone@.len() == count,
            forall|j: int| 0 <= j < count ==> gone@[j] == is_sold(taken@, j, i as nat),
            knight_statuses@ == after_sales(towers@, old(knight_statuses)@, taken@, i as nat),
        decreases taken@.len() - i,
    {
        match taken[i].target {
            Some(t) => {
                if t.0 < count {
                    match towers[t.0].knight {
                        Some(knight) => {
                            knight_statuses.set_status(knight, KUsageStatus::Ready);
                        },
                        None => {},
                    }
                    gone.set(t.0, true);
                }
            },
            None => {},
        }
        i += 1;
    }
    let mut kept: Vec<Tower> = Vec::new();
    let mut sold: Vec<usize> = Vec::new();
    let mut j: usize = 0;
    while j < count
        invariant
            j <= count,
            towers@ == old(towers)@,
            count == towers@.len(),
            gone@.len() == count,
            forall|j: int| 0 <= j < count ==> gone@[j] == is_sold(taken@, j, taken@.len()),
            kept@ == unsold(towers@, taken@, j as nat),
            sold@ == sold_among(taken@, j as nat),
        decreases count - j,
    {
        if !gone[j] {
            kept.push(towers[j]);
        } else {
            sold.push(j);
        }
        j += 1;
    }
    *towers = kept;
    sold
}


/// A knight who has reached the tower he was sent to.
#[derive(Copy, Clone, Debug, PartialEq, Eq, Structural)]
pub struct Arrival {
    pub tower: usize,
    pub knight: Knight,
}

/// The garrison after one knight has arrived: he is ready, and he mans his
/// tower where the list has it.
pub open spec fn after_arrival(before: Garrison, arrival: Arrival) -> Garrison {
    Garrison {
        towers: if arrival.tower < before.towers.len() {
            before.towers.update(
                arrival.tower as int,
                manned(before.towers[arrival.tower as int], Some(arrival.knight)),
            )
        } else {
            before.towers
        },
        statuses: before.statuses.insert(arrival.knight, KUsageStatus::Ready),
        alerts: before.alerts,
    }
}

/// The garrison after the first `n` of the arrivals, one after the other.
pub open spec fn after_arrivals(start: Garrison, arrivals: Seq<Arrival>, n: nat) -> Garrison
    decreases n,
{
    if n == 0 {
        start
    } else {
        after_arrival(after_arrivals(start, arrivals, (n - 1) as nat), arrivals[n - 1])
    }
}

/// Receives the knights who have reached their towers, in the order of
/// their arrival: each is ready again and mans the tower he was sent to,
/// whoever manned it before.
pub fn traveling_knights_arrive(
    arrivals: &Vec<Arrival>,
    towers: &mut Vec<Tower>,
    knight_statuses: &mut KnightStatuses,
)
    ensures
        ({
            let end = after_arrivals(
                Garrison {
                    towers: old(towers)@,
                    statuses: old(knight_statuses)@,
                    alerts: Seq::<AlertView>::empty(),
                },
                arrivals@,
                arrivals@.len(),
            );
            &&& final(towers)@ == end.towers
            &&& final(knight_statuses)@ == end.statuses
        }),
{
    let ghost start = Garrison {
        towers: old(towers)@,
        statuses: old(knight_statuses)@,
        alerts: Seq::<AlertView>::empty(),
    };
    let mut i: usize = 0;
    while i < arrivals.len()
        invariant
            i <= arrivals@.len(),
            towers@ == after_arrivals(start, arrivals@, i as nat).towers,
            knight_statuses@ == after_arrivals(start, arrivals@, i as nat).statuses,
        decreases arrivals@.len() - i,
    {
        let arrival = arrivals[i];
        knight_statuses.set_status(arrival.knight, KUsageStatus::Ready);
        let _ = add_knight_to_tower(towers, arrival.tower, arrival.knight);
        i += 1;
    }
}

} // verus!
