//! Route search: the cheapest way across the grid from where a wave enters
//! to where it leaves, stepping along the axes and paying for every tile
//! stepped onto.

use crate::helpers::manhattan;
use crate::helpers::Coordinate;
use crate::map::cardinal_neighbors;
use crate::map::coord_at;
use crate::map::in_bounds;
use crate::map::index_of;
use crate::map::lemma_coord_round_trip;
use crate::map::lemma_index_round_trip;
use crate::map::step_in_grid;
use crate::map::successors_of;
use crate::map::GridMap;
use crate::tile::step_cost;
use crate::tile::Tile;
use crate::tile::TileType;
use vstd::prelude::*;

verus! {

/// Whether one step along an axis leads from `a` to `b`.
pub open spec fn adjacent(a: Coordinate, b: Coordinate) -> bool {
    manhattan(a, b) == 1
}

/// What it costs to step onto the cell `c`.
pub open spec fn entry_cost(dims: (usize, usize), cells: Seq<Tile>, c: Coordinate) -> nat {
    step_cost(cells[index_of(dims, c)].tile_type)
}

/// Whether `path` is a walk on the grid: at least one cell, every cell in
/// the grid, every cell one step from the one before.
pub open spec fn is_walk(dims: (usize, usize), path: Seq<Coordinate>) -> bool {
    &&& path.len() > 0
    &&& forall|i: int| 0 <= i < path.len() ==> in_bounds(dims, #[trigger] path[i])
    &&& forall|i: int| 0 < i < path.len() ==> adjacent(path[i - 1], #[trigger] path[i])
}

/// Whether `path` is a walk on the grid that starts at `from` and ends at
/// `to`.
pub open spec fn is_route(
    dims: (usize, usize),
    from: Coordinate,
    to: Coordinate,
    path: Seq<Coordinate>,
) -> bool {
    is_walk(dims, path) && path[0] == from && path.last() == to
}

/// What a walk costs: the sum of the costs of the cells stepped onto, that
/// is of all its cells but the first.
pub open spec fn route_cost(dims: (usize, usize), cells: Seq<Tile>, path: Seq<Coordinate>) -> nat
    decreases path.len(),
{
    if path.len() <= 1 {
        0
    } else {
        entry_cost(dims, cells, path[1]) + route_cost(dims, cells, path.drop_first())
    }
}

/// The cell one step from `a` towards `b`, along the row first.
pub open spec fn toward(a: Coordinate, b: Coordinate) -> Coordinate {
    if a.x < b.x {
        Coordinate { x: (a.x + 1) as usize, y: a.y }
    } else if a.x > b.x {
        Coordinate { x: (a.x - 1) as usize, y: a.y }
    } else if a.y < b.y {
        Coordinate { x: a.x, y: (a.y + 1) as usize }
    } else {
        Coordinate { x: a.x, y: (a.y - 1) as usize }
    }
}

/// The walk from `a` to `b` that first follows the row and then the column.
pub open spec fn straight_walk(a: Coordinate, b: Coordinate) -> Seq<Coordinate>
    decreases manhattan(a, b),
{
    if a == b {
        seq![a]
    } else {
        seq![a] + straight_walk(toward(a, b), b)
    }
}

/// A walk with a cell put in front of it is a walk again where that cell is
/// in the grid and one step from the walk's first, and it costs what the
/// walk costs and the step onto its first cell.
pub proof fn lemma_walk_extended(
    dims: (usize, usize),
    cells: Seq<Tile>,
    c: Coordinate,
    path: Seq<Coordinate>,
)
    requires
        is_walk(dims, path),
        in_bounds(dims, c),
        adjacent(c, path[0]),
    ensures
        is_walk(dims, seq![c] + path),
        (seq![c] + path)[0] == c,
        (seq![c] + path).last() == path.last(),
        route_cost(dims, cells, seq![c] + path) == entry_cost(dims, cells, path[0]) + route_cost(
            dims,
            cells,
            path,
        ),
{
    let longer = seq![c] + path;
    assert(longer.drop_first() =~= path);
    assert forall|i: int| 0 < i < longer.len() implies adjacent(
        longer[i - 1],
        #[trigger] longer[i],
    ) by {
        if i > 1 {
            assert(longer[i] == path[i - 1]);
            assert(longer[i - 1] == path[i - 2]);
        }
    }
}

/// A walk of more than one cell without its first cell is a walk again.
pub proof fn lemma_walk_shortened(dims: (usize, usize), path: Seq<Coordinate>)
    requires
        is_walk(dims, path),
        path.len() > 1,
    ensures
        is_walk(dims, path.drop_first()),
        path.drop_first()[0] == path[1],
        path.drop_first().last() == path.last(),
        adjacent(path[0], path[1]),
{
    let rest = path.drop_first();
    assert forall|i: int| 0 <= i < rest.len() implies in_bounds(dims, #[trigger] rest[i]) by {
        assert(rest[i] == path[i + 1]);
    }
    assert forall|i: int| 0 < i < rest.len() implies adjacent(rest[i - 1], #[trigger] rest[i]) by {
        assert(rest[i] == path[i + 1]);
        assert(rest[i - 1] == path[i]);
    }
    assert(path[1] == path[1]);
}

/// No walk is cheaper than the number of steps between its ends: every
/// step costs at least one and brings the end at most one step nearer.
pub proof fn lemma_cost_covers_distance(
    dims: (usize, usize),
    cells: Seq<Tile>,
    path: Seq<Coordinate>,
)
    requires
        is_walk(dims, path),
    ensures
        route_cost(dims, cells, path) >= manhattan(path[0], path.last()),
    decreases path.len(),
{
    if path.len() > 1 {
        lemma_walk_shortened(dims, path);
        lemma_cost_covers_distance(dims, cells, path.drop_first());
    }
}

/// Between any two cells of the grid the straight walk is a route, and it
/// costs no more than the dearest tile for every step.
pub proof fn lemma_straight_walk(
    dims: (usize, usize),
    cells: Seq<Tile>,
    a: Coordinate,
    b: Coordinate,
)
    requires
        in_bounds(dims, a),
        in_bounds(dims, b),
    ensures
        is_route(dims, a, b, straight_walk(a, b)),
        straight_walk(a, b).len() == manhattan(a, b) + 1,
        route_cost(dims, cells, straight_walk(a, b)) <= 9999 * manhattan(a, b),
    decreases manhattan(a, b),
{
    if a != b {
        let n = toward(a, b);
        lemma_straight_walk(dims, cells, n, b);
        lemma_walk_extended(dims, cells, a, straight_walk(n, b));
    }
}

/// On a grid of barren tiles alone the straight walk costs one for every
/// step between its ends, and no route between them is cheaper.
pub proof fn lemma_barren_grid_cost(
    dims: (usize, usize),
    cells: Seq<Tile>,
    a: Coordinate,
    b: Coordinate,
)
    requires
        in_bounds(dims, a),
        in_bounds(dims, b),
        cells.len() == dims.0 * dims.1,
        forall|i: int| 0 <= i < cells.len() ==> (#[trigger] cells[i]).tile_type == TileType::Barren,
    ensures
        is_route(dims, a, b, straight_walk(a, b)),
        route_cost(dims, cells, straight_walk(a, b)) == manhattan(a, b),
        forall|path: Seq<Coordinate>| #[trigger]
            is_route(dims, a, b, path) ==> route_cost(dims, cells, path) >= manhattan(a, b),
    decreases manhattan(a, b),
{
    lemma_straight_walk(dims, cells, a, b);
    if a != b {
        let n = toward(a, b);
        lemma_barren_grid_cost(dims, cells, n, b);
        lemma_walk_extended(dims, cells, a, straight_walk(n, b));
        lemma_coord_round_trip(dims, n);
    }
    assert forall|path: Seq<Coordinate>| #[trigger] is_route(dims, a, b, path) implies route_cost(
        dims,
        cells,
        path,
    ) >= manhattan(a, b) by {
        lemma_cost_covers_distance(dims, cells, path);
    }
}


/// The neighbours of a cell of the grid are in the grid and one step from
/// it, and every cell of the grid one step from it is among them.
pub proof fn lemma_neighbors(dims: (usize, usize), c: Coordinate)
    requires
        in_bounds(dims, c),
    ensures
        forall|j: int|
            0 <= j < cardinal_neighbors(dims, c).len() ==> in_bounds(
                dims,
                #[trigger] cardinal_neighbors(dims, c)[j],
            ) && adjacent(c, cardinal_neighbors(dims, c)[j]),
        forall|b: Coordinate|
            in_bounds(dims, b) && #[trigger] adjacent(c, b) ==> cardinal_neighbors(
                dims,
                c,
            ).contains(b),
{
    let east = step_in_grid(dims, c, 1, 0);
    let south = step_in_grid(dims, c, 0, 1);
    let west = step_in_grid(dims, c, -1, 0);
    let north = step_in_grid(dims, c, 0, -1);
    let all = cardinal_neighbors(dims, c);
    assert(all == east + south + west + north);
    assert forall|b: Coordinate| in_bounds(dims, b) && #[trigger] adjacent(c, b) implies all.contains(
        b,
    ) by {
        if b.x == c.x + 1 {
            assert(east[0] == b);
            assert(all[0] == b);
        } else if b.y == c.y + 1 {
            assert(south[0] == b);
            assert(all[east.len() as int] == b);
        } else if b.x + 1 == c.x {
            assert(west[0] == b);
            assert(all[(east.len() + south.len()) as int] == b);
        } else {
            assert(north[0] == b);
            assert(all[(east.len() + south.len() + west.len()) as int] == b);
        }
    }
}

/// A route and what it costs.
#[derive(Debug)]
pub struct Route {
    /// The cells of the route, from its start to its end.
    pub steps: Vec<Coordinate>,
    /// The sum of the costs of the cells stepped onto.
    pub cost: u128,
}

/// Whether `found` answers the search for the cheapest route from `from` to
/// `to`: there is a route exactly where both ends are cells of the grid; the
/// one handed out is a walk from `from` to `to`, its `cost` is what it costs,
/// and no other route between the two costs less.
pub open spec fn is_cheapest(
    dims: (usize, usize),
    cells: Seq<Tile>,
    from: Coordinate,
    to: Coordinate,
    found: Option<Route>,
) -> bool {
    &&& found is Some <==> in_bounds(dims, from) && in_bounds(dims, to)
    &&& found is Some ==> is_route(dims, from, to, found->Some_0.steps@)
    &&& found is Some ==> found->Some_0.cost == route_cost(dims, cells, found->Some_0.steps@)
    &&& found is Some ==> forall|other: Seq<Coordinate>| #[trigger]
        is_route(dims, from, to, other) ==> found->Some_0.cost <= route_cost(dims, cells, other)
}

/// The sum of the labels.
spec fn total(labels: Seq<u128>) -> int
    decreases labels.len(),
{
    if labels.len() == 0 {
        0
    } else {
        total(labels.drop_last()) + labels.last()
    }
}

/// The number of open cells.
spec fn open_count(open: Seq<bool>) -> int
    decreases open.len(),
{
    if open.len() == 0 {
        0
    } else {
        open_count(open.drop_last()) + if open.last() {
            1int
        } else {
            0int
        }
    }
}

proof fn lemma_total_update(labels: Seq<u128>, i: int, v: u128)
    requires
        0 <= i < labels.len(),
    ensures
        total(labels.update(i, v)) == total(labels) - labels[i] + v,
        total(labels) >= 0,
    decreases labels.len(),
{
    if i == labels.len() - 1 {
        assert(labels.update(i, v).drop_last() =~= labels.drop_last());
        lemma_total_bounds(labels.drop_last());
    } else {
        lemma_total_update(labels.drop_last(), i, v);
        assert(labels.update(i, v).drop_last() =~= labels.drop_last().update(i, v));
    }
}

proof fn lemma_total_bounds(labels: Seq<u128>)
    ensures
        total(labels) >= 0,
    decreases labels.len(),
{
    if labels.len() > 0 {
        lemma_total_bounds(labels.drop_last());
    }
}

proof fn lemma_open_update(open: Seq<bool>, i: int, v: bool)
    requires
        0 <= i < open.len(),
    ensures
        open_count(open.update(i, v)) == open_count(open) - (if open[i] {
            1int
        } else {
            0int
        }) + (if v {
            1int
        } else {
            0int
        }),
        open_count(open) >= 0,
    decreases open.len(),
{
    if i == open.len() - 1 {
        assert(open.update(i, v).drop_last() =~= open.drop_last());
        lemma_open_bounds(open.drop_last());
    } else {
        lemma_open_update(open.drop_last(), i, v);
        assert(open.update(i, v).drop_last() =~= open.drop_last().update(i, v));
    }
}

proof fn lemma_open_bounds(open: Seq<bool>)
    ensures
        open_count(open) >= 0,
    decreases open.len(),
{
    if open.len() > 0 {
        lemma_open_bounds(open.drop_last());
    }
}

/// The least that a route through the cell `i` can cost as far as the
/// search knows: the cell's label and the number of steps still to go, held
/// within the range of a label.
spec fn estimate(dims: (usize, usize), labels: Seq<u128>, to: Coordinate, i: int) -> int {
    let sum = labels[i] + manhattan(coord_at(dims, i), to);
    if sum > u128::MAX {
        u128::MAX as int
    } else {
        sum
    }
}

/// Every closed cell but `skip` has handed its label on: none of its
/// neighbours could be reached more cheaply through it.
spec fn settled(
    dims: (usize, usize),
    cells: Seq<Tile>,
    labels: Seq<u128>,
    open: Seq<bool>,
    skip: int,
) -> bool {
    forall|a: Coordinate, b: Coordinate|
        in_bounds(dims, a) && in_bounds(dims, b) && #[trigger] adjacent(a, b) && !open[index_of(
            dims,
            a,
        )] && index_of(dims, a) != skip ==> labels[index_of(dims, b)] <= labels[index_of(dims, a)]
            + entry_cost(dims, cells, b)
}

/// Every labelled cell but the start points back to a neighbour from which
/// it can be reached for its label or less.
spec fn linked(
    dims: (usize, usize),
    cells: Seq<Tile>,
    labels: Seq<u128>,
    prev: Seq<usize>,
    start: int,
) -> bool {
    forall|v: int|
        0 <= v < labels.len() && v != start && #[trigger] labels[v] < u128::MAX ==> {
            &&& prev[v] < labels.len()
            &&& adjacent(coord_at(dims, prev[v] as int), coord_at(dims, v))
            &&& labels[prev[v] as int] + step_cost(cells[v].tile_type) <= labels[v]
        }
}

/// No open cell promises a route to the goal cheaper than the goal's label.
spec fn fenced(
    dims: (usize, usize),
    labels: Seq<u128>,
    open: Seq<bool>,
    to: Coordinate,
    goal: int,
) -> bool {
    forall|w: int|
        0 <= w < labels.len() && #[trigger] open[w] ==> labels[goal] <= labels[w] + manhattan(
            coord_at(dims, w),
            to,
        )
}

/// Once the search has stopped, the goal's label is no more than the label
/// of a walk's first cell and the cost of the walk, for every walk to the
/// goal.
proof fn lemma_label_bounds_walk(
    dims: (usize, usize),
    cells: Seq<Tile>,
    labels: Seq<u128>,
    open: Seq<bool>,
    to: Coordinate,
    path: Seq<Coordinate>,
)
    requires
        cells.len() == dims.0 * dims.1,
        labels.len() == cells.len(),
        open.len() == cells.len(),
        in_bounds(dims, to),
        is_walk(dims, path),
        path.last() == to,
        settled(dims, cells, labels, open, -1),
        fenced(dims, labels, open, to, index_of(dims, to)),
    ensures
        labels[index_of(dims, to)] <= labels[index_of(dims, path[0])] + route_cost(
            dims,
            cells,
            path,
        ),
    decreases path.len(),
{
    let a = path[0];
    lemma_coord_round_trip(dims, a);
    lemma_coord_round_trip(dims, to);
    if open[index_of(dims, a)] {
        lemma_cost_covers_distance(dims, cells, path);
    } else if path.len() > 1 {
        lemma_walk_shortened(dims, path);
        lemma_label_bounds_walk(dims, cells, labels, open, to, path.drop_first());
        lemma_coord_round_trip(dims, path[1]);
        assert(adjacent(a, path[1]));
    }
}


/// A list of `n` copies of `value`.
fn filled<T: Copy>(n: usize, value: T) -> (v: Vec<T>)
    ensures
        v@.len() == n,
        forall|i: int| 0 <= i < n ==> v@[i] == value,
{
    let mut v: Vec<T> = Vec::new();
    let mut i: usize = 0;
    while i < n
        invariant
            i <= n,
            v@.len() == i,
            forall|j: int| 0 <= j < i ==> v@[j] == value,
        decreases n - i,
    {
        v.push(value);
        i += 1;
    }
    v
}

/// The number of steps along the axes between two cells.
fn steps_between(a: Coordinate, b: Coordinate) -> (d: u128)
    ensures
        d == manhattan(a, b),
{
    let dx: u128 = if a.x >= b.x {
        (a.x - b.x) as u128
    } else {
        (b.x - a.x) as u128
    };
    let dy: u128 = if a.y >= b.y {
        (a.y - b.y) as u128
    } else {
        (b.y - a.y) as u128
    };
    dx + dy
}

/// The open cell with the least estimate, the first of them by index; none
/// where no cell is open.
fn pick(map: &GridMap, labels: &Vec<u128>, open: &Vec<bool>, to: Coordinate) -> (r: Option<usize>)
    requires
        map.wf(),
        labels@.len() == map.cells().len(),
        open@.len() == map.cells().len(),
    ensures
        r is None ==> forall|i: int| 0 <= i < open@.len() ==> !open@[i],
        r is Some ==> r->Some_0 < open@.len() && open@[r->Some_0 as int],
        r is Some ==> forall|i: int|
            0 <= i < open@.len() && open@[i] ==> estimate(
                map.dims(),
                labels@,
                to,
                r->Some_0 as int,
            ) <= estimate(map.dims(), labels@, to, i),
{
    let n = map.tile_count();
    let mut best: Option<usize> = None;
    let mut least: u128 = u128::MAX;
    let mut i: usize = 0;
    while i < n
        invariant
            map.wf(),
            n == map.cells().len(),
            labels@.len() == n,
            open@.len() == n,
            i <= n,
            best is None ==> forall|j: int| 0 <= j < i ==> !open@[j],
            best is Some ==> best->Some_0 < i && open@[best->Some_0 as int] && least == estimate(
                map.dims(),
                labels@,
                to,
                best->Some_0 as int,
            ),
            best is Some ==> forall|j: int|
                0 <= j < i && open@[j] ==> least <= estimate(map.dims(), labels@, to, j),
        decreases n - i,
    {
        if open[i] {
            let here = map.idx_to_coord(i).unwrap();
            let guess = labels[i].saturating_add(steps_between(here, to));
            if best.is_none() || guess < least {
                best = Some(i);
                least = guess;
            }
        }
        i += 1;
    }
    best
}

/// Lowering the label of `v` to what the way through its neighbour `u`
/// costs, pointing `v` back to `u` and opening it keeps the search's
/// bookkeeping in order.
proof fn lemma_lowered(
    dims: (usize, usize),
    cells: Seq<Tile>,
    labels: Seq<u128>,
    open: Seq<bool>,
    prev: Seq<usize>,
    u: usize,
    v: usize,
    offer: u128,
    start: int,
)
    requires
        cells.len() == dims.0 * dims.1,
        labels.len() == cells.len(),
        open.len() == cells.len(),
        prev.len() == cells.len(),
        u < cells.len(),
        v < cells.len(),
        0 <= start < cells.len(),
        adjacent(coord_at(dims, u as int), coord_at(dims, v as int)),
        offer < labels[v as int],
        offer == labels[u as int] + step_cost(cells[v as int].tile_type),
        labels[start] == 0,
        linked(dims, cells, labels, prev, start),
        settled(dims, cells, labels, open, u as int),
    ensures
        v != start,
        v != u,
        linked(dims, cells, labels.update(v as int, offer), prev.update(v as int, u), start),
        settled(
            dims,
            cells,
            labels.update(v as int, offer),
            open.update(v as int, true),
            u as int,
        ),
{
    let labels1 = labels.update(v as int, offer);
    let open1 = open.update(v as int, true);
    let prev1 = prev.update(v as int, u);
    assert forall|a: Coordinate, b: Coordinate|
        in_bounds(dims, a) && in_bounds(dims, b) && #[trigger] adjacent(a, b) && !open1[index_of(
            dims,
            a,
        )] && index_of(dims, a) != u implies labels1[index_of(dims, b)] <= labels1[index_of(dims, a)]
        + entry_cost(dims, cells, b) by {
        lemma_coord_round_trip(dims, a);
        lemma_coord_round_trip(dims, b);
        assert(index_of(dims, a) != v);
        assert(!open[index_of(dims, a)]);
        assert(labels[index_of(dims, b)] <= labels[index_of(dims, a)] + entry_cost(dims, cells, b));
    }
    assert forall|w: int|
        0 <= w < labels1.len() && w != start && #[trigger] labels1[w] < u128::MAX implies prev1[w]
        < labels1.len() && adjacent(coord_at(dims, prev1[w] as int), coord_at(dims, w))
        && labels1[prev1[w] as int] + step_cost(cells[w].tile_type) <= labels1[w] by {
        if w != v {
            assert(labels[w] < u128::MAX);
        }
    }
}

/// Once the closed cell `u` has made its offer to every neighbour, every
/// closed cell has handed its label on.
proof fn lemma_closed(
    dims: (usize, usize),
    cells: Seq<Tile>,
    labels: Seq<u128>,
    open: Seq<bool>,
    u: usize,
)
    requires
        cells.len() == dims.0 * dims.1,
        labels.len() == cells.len(),
        open.len() == cells.len(),
        u < cells.len(),
        settled(dims, cells, labels, open, u as int),
        forall|j: int|
            0 <= j < cardinal_neighbors(dims, coord_at(dims, u as int)).len() ==> labels[index_of(
                dims,
                #[trigger] cardinal_neighbors(dims, coord_at(dims, u as int))[j],
            )] <= labels[u as int] + entry_cost(
                dims,
                cells,
                cardinal_neighbors(dims, coord_at(dims, u as int))[j],
            ),
    ensures
        settled(dims, cells, labels, open, -1),
{
    let here = coord_at(dims, u as int);
    let near = cardinal_neighbors(dims, here);
    lemma_index_round_trip(dims, u as int);
    lemma_neighbors(dims, here);
    assert forall|a: Coordinate, b: Coordinate|
        in_bounds(dims, a) && in_bounds(dims, b) && #[trigger] adjacent(a, b) && !open[index_of(
            dims,
            a,
        )] implies labels[index_of(dims, b)] <= labels[index_of(dims, a)] + entry_cost(
        dims,
        cells,
        b,
    ) by {
        lemma_coord_round_trip(dims, a);
        if index_of(dims, a) == u {
            assert(a == here);
            assert(near.contains(b));
            let j = choose|j: int| 0 <= j < near.len() && near[j] == b;
            assert(labels[index_of(dims, near[j])] <= labels[u as int] + entry_cost(
                dims,
                cells,
                near[j],
            ));
        }
    }
}

/// Hands the label of the closed cell `u` on to its neighbours: a neighbour
/// that is reached more cheaply through `u` gets the lower label, points
/// back to `u` and is opened.
fn relax(
    map: &GridMap,
    labels: &mut Vec<u128>,
    open: &mut Vec<bool>,
    prev: &mut Vec<usize>,
    u: usize,
    start: usize,
)
    requires
        map.wf(),
        old(labels)@.len() == map.cells().len(),
        old(open)@.len() == map.cells().len(),
        old(prev)@.len() == map.cells().len(),
        u < map.cells().len(),
        start < map.cells().len(),
        old(labels)@[start as int] == 0,
        linked(map.dims(), map.cells(), old(labels)@, old(prev)@, start as int),
        settled(map.dims(), map.cells(), old(labels)@, old(open)@, u as int),
    ensures
        final(labels)@.len() == map.cells().len(),
        final(open)@.len() == map.cells().len(),
        final(prev)@.len() == map.cells().len(),
        final(labels)@[start as int] == 0,
        linked(map.dims(), map.cells(), final(labels)@, final(prev)@, start as int),
        settled(map.dims(), map.cells(), final(labels)@, final(open)@, -1),
        total(final(labels)@) < total(old(labels)@) || (final(labels)@ == old(labels)@
            && final(open)@ == old(open)@),
{
    let ghost dims = map.dims();
    let ghost cells = map.cells();
    let count = map.tile_count();
    let here = map.idx_to_coord(u).unwrap();
    let around = map.find_astar_successors(here);
    proof {
        lemma_index_round_trip(dims, u as int);
        lemma_neighbors(dims, here);
    }
    let ghost near = cardinal_neighbors(dims, here);
    let mut k: usize = 0;
    while k < around.len()
        invariant
            map.wf(),
            dims == map.dims(),
            cells == map.cells(),
            cells.len() == dims.0 * dims.1,
            labels@.len() == cells.len(),
            open@.len() == cells.len(),
            prev@.len() == cells.len(),
            u < cells.len(),
            start < cells.len(),
            here == coord_at(dims, u as int),
            in_bounds(dims, here),
            around@ == successors_of(dims, cells, here),
            near == cardinal_neighbors(dims, here),
            around@.len() == near.len(),
            forall|j: int|
                0 <= j < near.len() ==> in_bounds(dims, #[trigger] near[j]) && adjacent(
                    here,
                    near[j],
                ),
            k <= around@.len(),
            labels@[start as int] == 0,
            linked(dims, cells, labels@, prev@, start as int),
            settled(dims, cells, labels@, open@, u as int),
            forall|j: int|
                0 <= j < k ==> labels@[index_of(dims, #[trigger] near[j])] <= labels@[u as int]
                    + entry_cost(dims, cells, near[j]),
            total(labels@) < total(old(labels)@) || (labels@ == old(labels)@ && open@ == old(open)@),
        decreases around@.len() - k,
    {
        let next = around[k].0;
        let cost = around[k].1;
        proof {
            assert(in_bounds(dims, near[k as int]));
            assert(next == near[k as int]);
            lemma_coord_round_trip(dims, next);
        }
        let v = map.coord_to_idx(next).unwrap();
        let offer = labels[u].saturating_add(cost as u128);
        if offer < labels[v] {
            let ghost labels0 = labels@;
            proof {
                lemma_total_update(labels0, v as int, offer);
                lemma_lowered(dims, cells, labels0, open@, prev@, u, v, offer, start as int);
            }
            labels.set(v, offer);
            prev.set(v, u);
            open.set(v, true);
            proof {
                assert forall|j: int| 0 <= j < k + 1 implies labels@[index_of(
                    dims,
                    #[trigger] near[j],
                )] <= labels@[u as int] + entry_cost(dims, cells, near[j]) by {
                    lemma_coord_round_trip(dims, near[j]);
                    if j < k {
                        assert(labels0[index_of(dims, near[j])] <= labels0[u as int] + entry_cost(
                            dims,
                            cells,
                            near[j],
                        ));
                    }
                }
            }
        }
        k += 1;
    }
    proof {
        lemma_closed(dims, cells, labels@, open@, u);
    }
}


/// Follows the pointers back from the goal to the start and hands out the
/// cells passed, from the start to the goal.
fn trace(
    map: &GridMap,
    labels: &Vec<u128>,
    prev: &Vec<usize>,
    start: usize,
    goal: usize,
) -> (steps: Vec<Coordinate>)
    requires
        map.wf(),
        labels@.len() == map.cells().len(),
        prev@.len() == map.cells().len(),
        start < map.cells().len(),
        goal < map.cells().len(),
        labels@[start as int] == 0,
        labels@[goal as int] < u128::MAX,
        linked(map.dims(), map.cells(), labels@, prev@, start as int),
    ensures
        is_route(
            map.dims(),
            coord_at(map.dims(), start as int),
            coord_at(map.dims(), goal as int),
            steps@,
        ),
        route_cost(map.dims(), map.cells(), steps@) <= labels@[goal as int],
{
    let ghost dims = map.dims();
    let ghost cells = map.cells();
    let count = map.tile_count();
    let mut back: Vec<Coordinate> = Vec::new();
    let mut at = goal;
    let ghost mut tail = seq![coord_at(dims, goal as int)];
    proof {
        lemma_index_round_trip(dims, goal as int);
    }
    while at != start
        invariant
            map.wf(),
            dims == map.dims(),
            cells == map.cells(),
            cells.len() == dims.0 * dims.1,
            labels@.len() == cells.len(),
            prev@.len() == cells.len(),
            start < cells.len(),
            goal < cells.len(),
            at < cells.len(),
            linked(dims, cells, labels@, prev@, start as int),
            is_walk(dims, tail),
            tail[0] == coord_at(dims, at as int),
            tail.last() == coord_at(dims, goal as int),
            labels@[at as int] + route_cost(dims, cells, tail) <= labels@[goal as int],
            labels@[goal as int] < u128::MAX,
            back@.len() == tail.len() - 1,
            forall|i: int| 0 <= i < back@.len() ==> back@[i] == tail[tail.len() - 1 - i],
        decreases labels@[at as int],
    {
        let here = map.idx_to_coord(at).unwrap();
        back.push(here);
        let before = prev[at];
        proof {
            assert(labels@[at as int] < u128::MAX);
            lemma_index_round_trip(dims, at as int);
            lemma_index_round_trip(dims, before as int);
            lemma_walk_extended(dims, cells, coord_at(dims, before as int), tail);
            tail = seq![coord_at(dims, before as int)] + tail;
        }
        at = before;
    }
    let first = map.idx_to_coord(start).unwrap();
    let mut steps: Vec<Coordinate> = Vec::new();
    steps.push(first);
    let mut left: usize = back.len();
    while left > 0
        invariant
            left <= back@.len(),
            back@.len() == tail.len() - 1,
            forall|i: int| 0 <= i < back@.len() ==> back@[i] == tail[tail.len() - 1 - i],
            steps@.len() == back@.len() - left + 1,
            forall|i: int| 0 <= i < steps@.len() ==> steps@[i] == tail[i],
        decreases left,
    {
        left -= 1;
        steps.push(back[left]);
    }
    assert(steps@ =~= tail);
    steps
}

/// The cheapest route from `from` to `to` on the grid, found by a best-first
/// search that tries the cell next whose label and distance to the goal
/// promise the cheapest route.
///
/// There is a route exactly where both ends are cells of the grid. The
/// route handed out is a walk from `from` to `to`, `cost` is what it costs,
/// and no other route between the two costs less.
pub fn cheapest_route(map: &GridMap, from: Coordinate, to: Coordinate) -> (r: Option<Route>)
    requires
        map.wf(),
    ensures
        is_cheapest(map.dims(), map.cells(), from, to, r),
{
    if !map.coord_in_bounds(from) || !map.coord_in_bounds(to) {
        return None;
    }
    let ghost dims = map.dims();
    let ghost cells = map.cells();
    let count = map.tile_count();
    let start = map.coord_to_idx(from).unwrap();
    let goal = map.coord_to_idx(to).unwrap();
    let mut labels: Vec<u128> = filled(count, u128::MAX);
    let mut open: Vec<bool> = filled(count, false);
    let mut prev: Vec<usize> = filled(count, 0usize);
    labels.set(start, 0);
    open.set(start, true);
    proof {
        lemma_coord_round_trip(dims, from);
        lemma_coord_round_trip(dims, to);
        lemma_total_bounds(labels@);
        lemma_open_bounds(open@);
        assert forall|a: Coordinate, b: Coordinate|
            in_bounds(dims, a) && in_bounds(dims, b) && #[trigger] adjacent(a, b) && !open@[index_of(
                dims,
                a,
            )] implies labels@[index_of(dims, b)] <= labels@[index_of(dims, a)] + entry_cost(
            dims,
            cells,
            b,
        ) by {
            lemma_coord_round_trip(dims, a);
            lemma_coord_round_trip(dims, b);
        }
    }
    loop
        invariant
            map.wf(),
            dims == map.dims(),
            cells == map.cells(),
            cells.len() == dims.0 * dims.1,
            count == cells.len(),
            labels@.len() == count,
            open@.len() == count,
            prev@.len() == count,
            start < count,
            goal < count,
            goal == index_of(dims, to),
            labels@[start as int] == 0,
            linked(dims, cells, labels@, prev@, start as int),
            settled(dims, cells, labels@, open@, -1),
            total(labels@) >= 0,
            open_count(open@) >= 0,
        ensures
            fenced(dims, labels@, open@, to, goal as int),
        decreases total(labels@), open_count(open@),
    {
        let picked = pick(map, &labels, &open, to);
        if picked.is_none() {
            break ;
        }
        let u = picked.unwrap();
        let here = map.idx_to_coord(u).unwrap();
        let promise = labels[u].saturating_add(steps_between(here, to));
        if labels[goal] <= promise {
            proof {
                assert forall|w: int| 0 <= w < labels@.len() && #[trigger] open@[w] implies labels@[goal as int]
                    <= labels@[w] + manhattan(coord_at(dims, w), to) by {
                    assert(estimate(dims, labels@, to, u as int) <= estimate(dims, labels@, to, w));
                }
            }
            break ;
        }
        proof {
            lemma_open_update(open@, u as int, false);
        }
        open.set(u, false);
        proof {
            let shut = open@;
            assert forall|a: Coordinate, b: Coordinate|
                in_bounds(dims, a) && in_bounds(dims, b) && #[trigger] adjacent(a, b)
                    && !shut[index_of(dims, a)] && index_of(dims, a) != u implies labels@[index_of(
                dims,
                b,
            )] <= labels@[index_of(dims, a)] + entry_cost(dims, cells, b) by {
                lemma_coord_round_trip(dims, a);
            }
        }
        relax(map, &mut labels, &mut open, &mut prev, u, start);
        proof {
            lemma_total_bounds(labels@);
            lemma_open_bounds(open@);
        }
    }
    proof {
        lemma_straight_walk(dims, cells, from, to);
        lemma_label_bounds_walk(dims, cells, labels@, open@, to, straight_walk(from, to));
    }
    let steps = trace(map, &labels, &prev, start, goal);
    let cost = labels[goal];
    proof {
        lemma_label_bounds_walk(dims, cells, labels@, open@, to, steps@);
        assert forall|other: Seq<Coordinate>| #[trigger]
            is_route(dims, from, to, other) implies cost <= route_cost(dims, cells, other) by {
            lemma_label_bounds_walk(dims, cells, labels@, open@, to, other);
        }
    }
    Some(Route { steps, cost })
}


/// Keeps the route of a wave, from where it enters the grid to where it
/// leaves, and finds it anew when the grid or the two ends have changed.
pub struct PathPlanner {
    entry: Coordinate,
    exit: Coordinate,
    planned: bool,
    route: Option<Route>,
}

impl PathPlanner {
    /// Whether a route was ever looked for.
    pub closed spec fn planned(&self) -> bool {
        self.planned
    }

    /// The ends of the route that was looked for last.
    pub closed spec fn ends(&self) -> (Coordinate, Coordinate) {
        (self.entry, self.exit)
    }

    /// What the last search found.
    pub closed spec fn found(&self) -> Option<Route> {
        self.route
    }

    /// Whether the route kept may no longer be the cheapest on `map`: none
    /// was looked for yet, the grid was resized, a tile was edited, or an
    /// end of the wave's way was moved.
    pub open spec fn stale(&self, map: &GridMap) -> bool {
        !self.planned() || map.resized() || map.dirty().len() > 0 || self.ends() != (
            map.entry(),
            map.exit(),
        )
    }

    /// A planner that has not looked for a route yet.
    pub fn new() -> (p: Self)
        ensures
            !p.planned(),
            p.found() is None,
    {
        Self {
            entry: Coordinate { x: 0, y: 0 },
            exit: Coordinate { x: 0, y: 0 },
            planned: false,
            route: None,
        }
    }

    /// Whether the route has to be looked for again.
    pub fn needs_replan(&self, map: &GridMap) -> (r: bool)
        requires
            map.wf(),
        ensures
            r == self.stale(map),
    {
        let entry = map.wave_entry_coord();
        let exit = map.wave_exit_coord();
        !self.planned || map.size_dirty() || map.dirty_tiles().len() > 0 || self.entry.x != entry.x
            || self.entry.y != entry.y || self.exit.x != exit.x || self.exit.y != exit.y
    }

    /// Looks for the cheapest route of a wave across `map` and keeps it.
    pub fn replan(&mut self, map: &GridMap)
        requires
            map.wf(),
        ensures
            final(self).planned(),
            final(self).ends() == (map.entry(), map.exit()),
            is_cheapest(map.dims(), map.cells(), map.entry(), map.exit(), final(self).found()),
    {
        self.entry = map.wave_entry_coord();
        self.exit = map.wave_exit_coord();
        self.planned = true;
        self.route = cheapest_route(map, self.entry, self.exit);
    }

    /// Looks for the route again where it may have changed, and says whether
    /// it did so. Otherwise the planner stays as it is.
    pub fn refresh(&mut self, map: &GridMap) -> (searched: bool)
        requires
            map.wf(),
        ensures
            searched == old(self).stale(map),
            searched ==> final(self).planned() && final(self).ends() == (map.entry(), map.exit())
                && is_cheapest(
                map.dims(),
                map.cells(),
                map.entry(),
                map.exit(),
                final(self).found(),
            ),
            !searched ==> *final(self) == *old(self),
    {
        if self.needs_replan(map) {
            self.replan(map);
            true
        } else {
            false
        }
    }

    /// The route kept: none where none was looked for or none exists.
    pub fn route(&self) -> (r: &Option<Route>)
        ensures
            *r == self.found(),
    {
        &self.route
    }
}

/// The cheapest route of a wave across `map`, from where it enters to where
/// it leaves; none where either end is not a cell of the grid, as on a grid
/// without tiles.
pub fn find_path(map: &GridMap) -> (r: Option<Route>)
    requires
        map.wf(),
    ensures
        is_cheapest(map.dims(), map.cells(), map.entry(), map.exit(), r),
{
    cheapest_route(map, map.wave_entry_coord(), map.wave_exit_coord())
}


/// On a grid of barren tiles alone the cheapest route between two of its
/// cells costs one for every step between them.
pub proof fn lemma_cheapest_on_barren_grid(
    dims: (usize, usize),
    cells: Seq<Tile>,
    a: Coordinate,
    b: Coordinate,
    found: Option<Route>,
)
    requires
        in_bounds(dims, a),
        in_bounds(dims, b),
        cells.len() == dims.0 * dims.1,
        forall|i: int| 0 <= i < cells.len() ==> (#[trigger] cells[i]).tile_type == TileType::Barren,
        is_cheapest(dims, cells, a, b, found),
    ensures
        found is Some,
        found->Some_0.cost == manhattan(a, b),
{
    lemma_barren_grid_cost(dims, cells, a, b);
    assert(is_route(dims, a, b, straight_walk(a, b)));
    assert(is_route(dims, a, b, found->Some_0.steps@));
}

} // verus!
