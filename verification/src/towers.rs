//! Towers: what stands on a tile, who mans it, and the requests that build,
//! man and sell them.

use crate::cooldown::spawn_cd_reset_message;
use crate::cooldown::Cooldown;
use crate::cooldown::ResetCooldown;
use crate::helpers::Coordinate;
use crate::knights::Knight;
use crate::messages::EffectBus;
use crate::messages::request;
use crate::messages::Message;
use crate::messages::Payload;
use crate::messages::Sender;
use crate::messages::Target;
use vstd::prelude::*;

verus! {

/// What a tower costs.
pub const TOWER_COST: i32 = 150;

/// The three heights a tower comes in.
#[derive(Copy, Clone, Debug, PartialEq, Eq, Structural)]
pub enum TowerType {
    Short,
    Medium,
    Tall,
}

/// A tower on the grid.
#[derive(Copy, Clone, Debug, PartialEq, Eq, Structural)]
pub struct Tower {
    pub location: Coordinate,
    pub t_type: TowerType,
    pub knight: Option<Knight>,
}

/// A request to build a tower.
#[derive(Copy, Clone, Debug, PartialEq, Eq, Structural)]
pub struct BuildTower {
    pub location: Coordinate,
    pub t_type: TowerType,
}

/// A request to send a knight to the tower at a location.
#[derive(Copy, Clone, Debug, PartialEq, Eq, Structural)]
pub struct PlaceKnight {
    pub location: Coordinate,
    pub knight: Knight,
}

/// A request to sell the target tower.
#[derive(Copy, Clone, Debug, PartialEq, Eq, Structural)]
pub struct Sell;

/// The damage of one hit.
#[derive(Copy, Clone, Debug, PartialEq, Eq, Structural)]
pub struct Damage(pub u32);

/// What a tower shoots.
#[derive(Copy, Clone, Debug, PartialEq, Eq, Structural)]
pub enum ProjectileType {
    Ballista,
}

/// A request to launch a projectile from the sender at the target.
#[derive(Copy, Clone, Debug, PartialEq, Eq, Structural)]
pub struct SpawnProjectile(pub ProjectileType);

/// Puts up a tower of the given type at `coord`, without a knight. The
/// result is its place in the list.
pub fn spawn_tower(towers: &mut Vec<Tower>, coord: Coordinate, t_type: TowerType) -> (idx: usize)
    ensures
        final(towers)@ == old(towers)@.push(Tower { location: coord, t_type, knight: None }),
        idx == old(towers)@.len(),
{
    let idx = towers.len();
    towers.push(Tower { location: coord, t_type, knight: None });
    idx
}

/// The tower `t` manned by `knight`.
pub open spec fn manned(t: Tower, knight: Option<Knight>) -> Tower {
    Tower { location: t.location, t_type: t.t_type, knight }
}

/// Mans the tower at `idx` with `knight`, whoever manned it before. Where
/// the list has no such tower nothing happens and the result is `false`.
pub fn add_knight_to_tower(towers: &mut Vec<Tower>, idx: usize, knight: Knight) -> (done: bool)
    ensures
        done == (idx < old(towers)@.len()),
        done ==> final(towers)@ == old(towers)@.update(
            idx as int,
            manned(old(towers)@[idx as int], Some(knight)),
        ),
        !done ==> final(towers)@ == old(towers)@,
{
    if idx < towers.len() {
        let t = towers[idx];
        towers.set(idx, Tower { location: t.location, t_type: t.t_type, knight: Some(knight) });
        true
    } else {
        false
    }
}

/// Takes the knight off the tower at `idx` and hands him back. Where the
/// list has no such tower, or the tower is not manned, nothing happens and
/// the result is `None`.
pub fn remove_knight_from_tower(towers: &mut Vec<Tower>, idx: usize) -> (knight: Option<Knight>)
    ensures
        idx < old(towers)@.len() ==> knight == old(towers)@[idx as int].knight && final(towers)@
            == old(towers)@.update(idx as int, manned(old(towers)@[idx as int], None)),
        idx >= old(towers)@.len() ==> knight is None && final(towers)@ == old(towers)@,
{
    if idx < towers.len() {
        let t = towers[idx];
        towers.set(idx, Tower { location: t.location, t_type: t.t_type, knight: None });
        t.knight
    } else {
        None
    }
}

/// The first of the first `n` towers that stands at `coord`.
pub open spec fn first_tower_at(towers: Seq<Tower>, coord: Coordinate, n: nat) -> Option<usize>
    decreases n,
{
    if n == 0 {
        None
    } else {
        match first_tower_at(towers, coord, (n - 1) as nat) {
            Some(i) => Some(i),
            None => if towers[n - 1].location == coord {
                Some((n - 1) as usize)
            } else {
                None
            },
        }
    }
}

/// The place of the first tower that stands at `coord`.
pub fn tower_at(towers: &Vec<Tower>, coord: Coordinate) -> (found: Option<usize>)
    ensures
        found == first_tower_at(towers@, coord, towers@.len()),
        found is Some ==> found.unwrap() < towers@.len() && towers@[found.unwrap() as int].location
            == coord,
{
    let mut i: usize = 0;
    while i < towers.len()
        invariant
            i <= towers@.len(),
            first_tower_at(towers@, coord, i as nat) is None,
        decreases towers@.len() - i,
    {
        if towers[i].location == coord {
            proof {
                lemma_first_tower_stays(towers@, coord, (i + 1) as nat, towers@.len());
            }
            return Some(i);
        }
        i += 1;
    }
    None
}

proof fn lemma_first_tower_stays(towers: Seq<Tower>, coord: Coordinate, n: nat, m: nat)
    requires
        n <= m,
        first_tower_at(towers, coord, n) is Some,
    ensures
        first_tower_at(towers, coord, m) == first_tower_at(towers, coord, n),
    decreases m,
{
    if m > n {
        lemma_first_tower_stays(towers, coord, n, (m - 1) as nat);
    }
}

/// The message that asks for a projectile from `src` at `target`.
pub open spec fn launch(src: usize, target: usize, projectile_type: ProjectileType) -> Message {
    Message {
        sender: Some(Sender(src)),
        target: Some(Target(target)),
        payload: Payload::SpawnProjectile(SpawnProjectile(projectile_type)),
        handled: false,
    }
}

/// Asks for a projectile to be launched from `src` at `target`.
pub fn spawn_projectile_message(
    src: usize,
    target: usize,
    projectile_type: ProjectileType,
    bus: &mut EffectBus,
)
    ensures
        final(bus)@ == old(bus)@.push(launch(src, target, projectile_type)),
{
    bus.send(
        Some(Sender(src)),
        Some(Target(target)),
        Payload::SpawnProjectile(SpawnProjectile(projectile_type)),
    );
}


/// What the first `n` towers send when they fire: every tower that has a
/// target and whose cooldown has run out asks for a ballista bolt at its
/// target and for its cooldown to be reset, tower by tower.
pub open spec fn volley(targets: Seq<Option<usize>>, cooldowns: Seq<Cooldown>, n: nat) -> Seq<
    Message,
>
    decreases n,
{
    if n == 0 {
        seq![]
    } else {
        let before = volley(targets, cooldowns, (n - 1) as nat);
        match targets[n - 1] {
            Some(target) => if cooldowns[n - 1].remaining() <= 0 {
                before.push(launch((n - 1) as usize, target, ProjectileType::Ballista)).push(
                    request((n - 1) as usize, Payload::ResetCooldown(ResetCooldown)),
                )
            } else {
                before
            },
            None => before,
        }
    }
}

/// Lets the towers fire. `targets` and `cooldowns` hold, for each tower by
/// its place in the list, the enemy it aims at and its cooldown. Every
/// tower that has a target and whose cooldown has run out asks for a
/// ballista bolt at its target and for its cooldown to be reset.
pub fn fire_projectiles_at_targets(
    targets: &Vec<Option<usize>>,
    cooldowns: &Vec<Cooldown>,
    bus: &mut EffectBus,
)
    requires
        targets@.len() == cooldowns@.len(),
    ensures
        final(bus)@ == old(bus)@ + volley(targets@, cooldowns@, targets@.len()),
{
    let mut i: usize = 0;
    assert(bus@ =~= old(bus)@ + volley(targets@, cooldowns@, 0));
    while i < targets.len()
        invariant
            i <= targets@.len(),
            targets@.len() == cooldowns@.len(),
            bus@ == old(bus)@ + volley(targets@, cooldowns@, i as nat),
        decreases targets@.len() - i,
    {
        let ghost before = volley(targets@, cooldowns@, i as nat);
        match targets[i] {
            Some(target) => {
                if cooldowns[i].is_ready() {
                    spawn_projectile_message(i, target, ProjectileType::Ballista, bus);
                    spawn_cd_reset_message(i, bus);
                    assert(bus@ =~= old(bus)@ + before.push(
                        launch(i, target, ProjectileType::Ballista),
                    ).push(request(i, Payload::ResetCooldown(ResetCooldown))));
                }
            },
            None => {},
        }
        i += 1;
    }
}

} // verus!
