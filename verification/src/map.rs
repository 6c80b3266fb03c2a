//! The grid: a row-major array of tiles with the bookkeeping that tells
//! consumers what changed since they last looked.

use crate::elements::ElementalAffliction;
use crate::helpers::Coordinate;
use crate::structures::Structure;
use crate::tile::blank_tile;
use crate::tile::carried;
use crate::tile::charged_tile;
use crate::tile::drained_tile;
use crate::tile::step_cost;
use crate::tile::Tile;
use crate::tile::TileType;
use vstd::arithmetic::div_mod::lemma_fundamental_div_mod_converse;
use vstd::prelude::*;

verus! {

/// Why the grid refused an operation.
#[derive(Clone, Copy, Debug, PartialEq, Eq, Structural)]
pub enum MapError {
    /// A coordinate or an index lies outside the grid.
    OutOfBounds,
    /// The grid has no tiles to work on.
    InvalidOperation,
}

/// Whether `c` names a cell of a grid with the dimensions `dims`
/// (width, height).
pub open spec fn in_bounds(dims: (usize, usize), c: Coordinate) -> bool {
    c.x < dims.0 && c.y < dims.1
}

/// The row-major index of `c` in a grid of width `dims.0`.
pub open spec fn index_of(dims: (usize, usize), c: Coordinate) -> int {
    c.y * dims.0 + c.x
}

/// The cell that the row-major index `idx` names in a grid of width `dims.0`.
pub open spec fn coord_at(dims: (usize, usize), idx: int) -> Coordinate {
    Coordinate { x: (idx % (dims.0 as int)) as usize, y: (idx / (dims.0 as int)) as usize }
}

/// Turning a cell into its index and back gives the same cell, and the index
/// lies within the grid.
pub proof fn lemma_coord_round_trip(dims: (usize, usize), c: Coordinate)
    requires
        in_bounds(dims, c),
    ensures
        0 <= index_of(dims, c) < dims.0 * dims.1,
        coord_at(dims, index_of(dims, c)) == c,
{
    let w = dims.0 as int;
    let h = dims.1 as int;
    let x = c.x as int;
    let y = c.y as int;
    assert(y * w + x < w * h) by (nonlinear_arith)
        requires
            0 <= x < w,
            0 <= y < h,
    ;
    assert(0 <= y * w) by (nonlinear_arith)
        requires
            0 <= y,
            0 <= w,
    ;
    assert(y * w == w * y) by (nonlinear_arith);
    lemma_fundamental_div_mod_converse(y * w + x, w, y, x);
}

/// Turning an index into its cell and back gives the same index, and the
/// cell lies within the grid.
pub proof fn lemma_index_round_trip(dims: (usize, usize), idx: int)
    requires
        0 <= idx < dims.0 * dims.1,
    ensures
        in_bounds(dims, coord_at(dims, idx)),
        index_of(dims, coord_at(dims, idx)) == idx,
{
    let w = dims.0 as int;
    let h = dims.1 as int;
    assert(w > 0) by (nonlinear_arith)
        requires
            0 <= idx < w * h,
            0 <= w,
            0 <= h,
    ;
    vstd::arithmetic::div_mod::lemma_fundamental_div_mod(idx, w);
    vstd::arithmetic::div_mod::lemma_mod_bound(idx, w);
    vstd::arithmetic::div_mod::lemma_div_pos_is_pos(idx, w);
    assert(idx / w < h) by (nonlinear_arith)
        requires
            idx == w * (idx / w) + idx % w,
            0 <= idx % w < w,
            idx < w * h,
            0 <= idx / w,
    ;
    assert(w * (idx / w) == (idx / w) * w) by (nonlinear_arith);
}

/// The cell reached from `c` by the step (`dx`, `dy`), as a singleton, or
/// nothing where that cell is not in the grid.
pub open spec fn step_in_grid(dims: (usize, usize), c: Coordinate, dx: int, dy: int) -> Seq<
    Coordinate,
> {
    if 0 <= c.x + dx < dims.0 && 0 <= c.y + dy < dims.1 {
        seq![Coordinate { x: (c.x + dx) as usize, y: (c.y + dy) as usize }]
    } else {
        seq![]
    }
}

/// The cells of the grid next to `c` along the axes, in the order east,
/// south, west, north (with `y` growing southwards).
pub open spec fn cardinal_neighbors(dims: (usize, usize), c: Coordinate) -> Seq<Coordinate> {
    step_in_grid(dims, c, 1, 0) + step_in_grid(dims, c, 0, 1) + step_in_grid(dims, c, -1, 0)
        + step_in_grid(dims, c, 0, -1)
}

/// The cells of the grid next to `c` along the axes and the diagonals, row by
/// row from the north-west to the south-east.
pub open spec fn moore_neighbors(dims: (usize, usize), c: Coordinate) -> Seq<Coordinate> {
    step_in_grid(dims, c, -1, -1) + step_in_grid(dims, c, 0, -1) + step_in_grid(dims, c, 1, -1)
        + step_in_grid(dims, c, -1, 0) + step_in_grid(dims, c, 1, 0) + step_in_grid(
        dims,
        c,
        -1,
        1,
    ) + step_in_grid(dims, c, 0, 1) + step_in_grid(dims, c, 1, 1)
}

/// The row-major indices of `cells`.
pub open spec fn indices_of(dims: (usize, usize), cells: Seq<Coordinate>) -> Seq<usize> {
    cells.map_values(|c: Coordinate| index_of(dims, c) as usize)
}

/// What a route search may step to from `c`: each neighbour along the axes
/// that lies in the grid, with the cost of stepping onto it.
pub open spec fn successors_of(dims: (usize, usize), cells: Seq<Tile>, c: Coordinate) -> Seq<
    (Coordinate, u32),
> {
    cardinal_neighbors(dims, c).map_values(
        |n: Coordinate| (n, step_cost(cells[index_of(dims, n)].tile_type) as u32),
    )
}

/// The tiles of a grid after it was given `count` cells: those that were
/// there keep their place and content, new ones are blank.
pub open spec fn resized_tiles(old_tiles: Seq<Tile>, count: nat) -> Seq<Tile> {
    Seq::new(
        count,
        |i: int|
            if i < old_tiles.len() {
                old_tiles[i]
            } else {
                blank_tile()
            },
    )
}

/// The tile that results from a partial update: a field that is not given
/// stays as it was, and the charge is never touched.
pub open spec fn updated_tile(t: Tile, new_type: Option<TileType>, new_structure: Option<Structure>) -> Tile {
    Tile {
        tile_type: match new_type {
            Some(tt) => tt,
            None => t.tile_type,
        },
        structure: match new_structure {
            Some(s) => s,
            None => t.structure,
        },
        affliction: t.affliction,
    }
}

/// A grid of tiles.
pub struct GridMap {
    dimensions: (usize, usize),
    size_dirty: bool,
    tiles: Vec<Tile>,
    dirty_tiles: Vec<usize>,
    wave_entry_coord: Coordinate,
    wave_exit_coord: Coordinate,
}

impl GridMap {
    /// The grid holds exactly one tile per cell.
    pub closed spec fn wf(&self) -> bool {
        self.tiles@.len() == self.dimensions.0 * self.dimensions.1
    }

    /// Width and height.
    pub closed spec fn dims(&self) -> (usize, usize) {
        self.dimensions
    }

    /// The tiles, row by row.
    pub closed spec fn cells(&self) -> Seq<Tile> {
        self.tiles@
    }

    /// The indices of the tiles edited since the list was last cleared, in
    /// the order of the edits.
    pub closed spec fn dirty(&self) -> Seq<usize> {
        self.dirty_tiles@
    }

    /// Whether the grid changed size since the flag was last cleared.
    pub closed spec fn resized(&self) -> bool {
        self.size_dirty
    }

    /// Where a wave enters the grid.
    pub closed spec fn entry(&self) -> Coordinate {
        self.wave_entry_coord
    }

    /// Where a wave leaves the grid.
    pub closed spec fn exit(&self) -> Coordinate {
        self.wave_exit_coord
    }

    /// A well-formed grid has as many tiles as its dimensions say.
    pub proof fn lemma_wf_tile_count(&self)
        requires
            self.wf(),
        ensures
            self.cells().len() == self.dims().0 * self.dims().1,
    {
    }

    /// A grid without tiles.
    pub fn empty() -> (m: Self)
        ensures
            m.wf(),
            m.dims() == (0usize, 0usize),
            m.cells() == Seq::<Tile>::empty(),
            m.dirty() == Seq::<usize>::empty(),
            m.resized(),
            m.entry() == (Coordinate { x: 0, y: 0 }),
            m.exit() == (Coordinate { x: 0, y: 0 }),
    {
        Self::new((0, 0))
    }

    /// Whether no map is loaded: both dimensions are zero.
    pub fn is_empty(&self) -> (r: bool)
        requires
            self.wf(),
        ensures
            r == (self.dims() == (0usize, 0usize)),
    {
        self.dimensions.0 == 0 && self.dimensions.1 == 0
    }

    /// A grid of blank tiles. It is flagged as resized so that consumers
    /// build their picture of it; both wave endpoints sit at the origin.
    pub fn new(dimensions: (usize, usize)) -> (m: Self)
        requires
            dimensions.0 * dimensions.1 <= usize::MAX,
        ensures
            m.wf(),
            m.dims() == dimensions,
            m.cells() == resized_tiles(Seq::empty(), (dimensions.0 * dimensions.1) as nat),
            m.dirty() == Seq::<usize>::empty(),
            m.resized(),
            m.entry() == (Coordinate { x: 0, y: 0 }),
            m.exit() == (Coordinate { x: 0, y: 0 }),
    {
        let count: usize = dimensions.0 * dimensions.1;
        let tiles = Self::grown(&Vec::new(), count);
        Self {
            dimensions,
            size_dirty: true,
            tiles,
            dirty_tiles: Vec::new(),
            wave_entry_coord: Coordinate { x: 0, y: 0 },
            wave_exit_coord: Coordinate { x: 0, y: 0 },
        }
    }

    fn grown(old_tiles: &Vec<Tile>, count: usize) -> (tiles: Vec<Tile>)
        ensures
            tiles@ == resized_tiles(old_tiles@, count as nat),
    {
        let mut tiles: Vec<Tile> = Vec::new();
        let mut i: usize = 0;
        while i < count
            invariant
                i <= count,
                tiles@.len() == i,
                forall|j: int| 0 <= j < i ==> tiles@[j] == resized_tiles(old_tiles@, count as nat)[j],
            decreases count - i,
        {
            if i < old_tiles.len() {
                tiles.push(old_tiles[i]);
            } else {
                tiles.push(Tile::blank());
            }
            i += 1;
        }
        assert(tiles@ =~= resized_tiles(old_tiles@, count as nat));
        tiles
    }

    /// Width and height.
    pub fn dimensions(&self) -> (d: (usize, usize))
        requires
            self.wf(),
        ensures
            d == self.dims(),
    {
        self.dimensions
    }

    /// The number of tiles.
    pub fn tile_count(&self) -> (n: usize)
        requires
            self.wf(),
        ensures
            n == self.cells().len(),
            n == self.dims().0 * self.dims().1,
    {
        self.tiles.len()
    }

    /// Gives the grid new dimensions. Tiles whose index stays in range keep
    /// their type, structure and charge; tiles beyond the new count are
    /// dropped; new tiles are blank. The grid is flagged as resized.
    pub fn resize(&mut self, new_dimensions: (usize, usize))
        requires
            old(self).wf(),
            new_dimensions.0 * new_dimensions.1 <= usize::MAX,
        ensures
            final(self).wf(),
            final(self).dims() == new_dimensions,
            final(self).cells() == resized_tiles(
                old(self).cells(),
                (new_dimensions.0 * new_dimensions.1) as nat,
            ),
            final(self).cells().len() == new_dimensions.0 * new_dimensions.1,
            final(self).resized(),
            final(self).dirty() == old(self).dirty(),
            final(self).entry() == old(self).entry(),
            final(self).exit() == old(self).exit(),
    {
        let count: usize = new_dimensions.0 * new_dimensions.1;
        let tiles = Self::grown(&self.tiles, count);
        let mut dirty_tiles: Vec<usize> = Vec::new();
        core::mem::swap(&mut dirty_tiles, &mut self.dirty_tiles);
        *self = Self {
            dimensions: new_dimensions,
            size_dirty: true,
            tiles,
            dirty_tiles,
            wave_entry_coord: self.wave_entry_coord,
            wave_exit_coord: self.wave_exit_coord,
        };
    }

    /// Whether `coord` names a cell of the grid.
    pub fn coord_in_bounds(&self, coord: Coordinate) -> (r: bool)
        requires
            self.wf(),
        ensures
            r == in_bounds(self.dims(), coord),
    {
        coord.x < self.dimensions.0 && coord.y < self.dimensions.1
    }

    /// The cell that `idx` names, or `OutOfBounds` where the grid has no
    /// such tile.
    pub fn idx_to_coord(&self, idx: usize) -> (r: Result<Coordinate, MapError>)
        requires
            self.wf(),
        ensures
            idx < self.cells().len() ==> r == Ok::<Coordinate, MapError>(
                coord_at(self.dims(), idx as int),
            ),
            idx >= self.cells().len() ==> r == Err::<Coordinate, MapError>(MapError::OutOfBounds),
            r is Ok ==> in_bounds(self.dims(), r->Ok_0),
    {
        if idx >= self.tiles.len() {
            return Err(MapError::OutOfBounds);
        }
        proof {
            lemma_index_round_trip(self.dimensions, idx as int);
        }
        let y = idx / self.dimensions.0;
        let x = idx % self.dimensions.0;
        Ok(Coordinate { x, y })
    }

    /// The row-major index of `coord`, or `OutOfBounds` where the cell is not
    /// in the grid.
    pub fn coord_to_idx(&self, coord: Coordinate) -> (r: Result<usize, MapError>)
        requires
            self.wf(),
        ensures
            in_bounds(self.dims(), coord) ==> r == Ok::<usize, MapError>(
                index_of(self.dims(), coord) as usize,
            ),
            !in_bounds(self.dims(), coord) ==> r == Err::<usize, MapError>(MapError::OutOfBounds),
            r is Ok ==> r->Ok_0 < self.cells().len() && r->Ok_0 == index_of(self.dims(), coord),
    {
        if !self.coord_in_bounds(coord) {
            return Err(MapError::OutOfBounds);
        }
        let count = self.tiles.len();
        proof {
            lemma_coord_round_trip(self.dimensions, coord);
            assert(0 <= coord.y * self.dimensions.0) by (nonlinear_arith);
            assert(index_of(self.dimensions, coord) == coord.y * self.dimensions.0 + coord.x);
            assert(self.tiles@.len() == self.dimensions.0 * self.dimensions.1);
        }
        Ok(coord.y * self.dimensions.0 + coord.x)
    }

    /// The stepping-stones of a route search: each neighbour of `coord` along
    /// the axes that lies in the grid, with the cost of stepping onto it.
    pub fn find_astar_successors(&self, coord: Coordinate) -> (result: Vec<(Coordinate, u32)>)
        requires
            self.wf(),
        ensures
            result@ == successors_of(self.dims(), self.cells(), coord),
    {
        let neighbors = self.coord_cardinals(coord);
        let mut result: Vec<(Coordinate, u32)> = Vec::new();
        let mut i: usize = 0;
        while i < neighbors.len()
            invariant
                self.wf(),
                i <= neighbors@.len(),
                neighbors@ == cardinal_neighbors(self.dims(), coord),
                forall|j: int|
                    0 <= j < neighbors@.len() ==> in_bounds(self.dims(), #[trigger] neighbors@[j]),
                result@.len() == i,
                forall|j: int|
                    0 <= j < i ==> #[trigger] result@[j] == successors_of(
                        self.dims(),
                        self.cells(),
                        coord,
                    )[j],
            decreases neighbors@.len() - i,
        {
            let c = neighbors[i];
            match self.tile_type_at_coord(c) {
                Ok(tile_type) => {
                    result.push((c, tile_type.astar_cost()));
                },
                Err(_) => {},
            }
            i += 1;
        }
        assert(result@ =~= successors_of(self.dims(), self.cells(), coord));
        result
    }

    /// The type of the tile at `idx`, or `None` where the grid has no such
    /// tile.
    pub fn tile_type_at_index(&self, idx: usize) -> (r: Option<&TileType>)
        requires
            self.wf(),
        ensures
            idx < self.cells().len() ==> r == Some(&self.cells()[idx as int].tile_type),
            idx >= self.cells().len() ==> r is None,
    {
        if idx < self.tiles.len() {
            Some(&self.tiles[idx].tile_type)
        } else {
            None
        }
    }

    /// The structure on the tile at `idx`, or `None` where the grid has no
    /// such tile.
    pub fn structure_at_index(&self, idx: usize) -> (r: Option<&Structure>)
        requires
            self.wf(),
        ensures
            idx < self.cells().len() ==> r == Some(&self.cells()[idx as int].structure),
            idx >= self.cells().len() ==> r is None,
    {
        if idx < self.tiles.len() {
            Some(&self.tiles[idx].structure)
        } else {
            None
        }
    }

    /// The charge on the tile at `idx`: `None` where the grid has no such
    /// tile, the empty affliction where the tile carries none.
    pub fn affliction_at_index(&self, idx: usize) -> (r: Option<ElementalAffliction>)
        requires
            self.wf(),
        ensures
            idx < self.cells().len() ==> r == Some(carried(self.cells()[idx as int])),
            idx >= self.cells().len() ==> r is None,
    {
        if idx < self.tiles.len() {
            match self.tiles[idx].affliction {
                Some(a) => Some(a),
                None => Some(ElementalAffliction::empty()),
            }
        } else {
            None
        }
    }

    /// The whole tile at `idx`, or `None` where the grid has no such tile.
    pub fn tile_at_index(&self, idx: usize) -> (r: Option<Tile>)
        requires
            self.wf(),
        ensures
            idx < self.cells().len() ==> r == Some(self.cells()[idx as int]),
            idx >= self.cells().len() ==> r is None,
    {
        if idx < self.tiles.len() {
            Some(self.tiles[idx])
        } else {
            None
        }
    }

    /// Updates the tile at `coord`. A field that is not given stays as it
    /// was; the charge is not touched. The tile's index is appended to the
    /// list of edited tiles. On a grid without tiles the call is an
    /// `InvalidOperation`; a cell outside the grid is `OutOfBounds`; in both
    /// cases nothing changes.
    pub fn set_tile(
        &mut self,
        coord: Coordinate,
        new_tile_type: Option<TileType>,
        new_structure: Option<Structure>,
    ) -> (r: Result<(), MapError>)
        requires
            old(self).wf(),
        ensures
            final(self).wf(),
            final(self).dims() == old(self).dims(),
            final(self).resized() == old(self).resized(),
            final(self).entry() == old(self).entry(),
            final(self).exit() == old(self).exit(),
            old(self).cells().len() == 0 ==> r == Err::<(), MapError>(MapError::InvalidOperation),
            old(self).cells().len() > 0 && !in_bounds(old(self).dims(), coord) ==> r == Err::<
                (),
                MapError,
            >(MapError::OutOfBounds),
            old(self).cells().len() > 0 && in_bounds(old(self).dims(), coord) ==> r == Ok::<
                (),
                MapError,
            >(()),
            r is Err ==> final(self).cells() == old(self).cells() && final(self).dirty() == old(
                self,
            ).dirty(),
            r is Ok ==> {
                let idx = index_of(old(self).dims(), coord);
                &&& 0 <= idx < old(self).cells().len()
                &&& final(self).cells() == old(self).cells().update(
                    idx,
                    updated_tile(old(self).cells()[idx], new_tile_type, new_structure),
                )
                &&& final(self).dirty() == old(self).dirty().push(idx as usize)
            },
    {
        if self.tiles.len() == 0 {
            return Err(MapError::InvalidOperation);
        }
        let idx = match self.coord_to_idx(coord) {
            Ok(idx) => idx,
            Err(e) => {
                return Err(e);
            },
        };
        let current = self.tiles[idx];
        let t_type = match new_tile_type {
            Some(tile_type) => tile_type,
            None => current.tile_type,
        };
        let structure = match new_structure {
            Some(structure) => structure,
            None => current.structure,
        };
        self.tiles.set(
            idx,
            Tile { tile_type: t_type, structure, affliction: current.affliction },
        );
        self.dirty_tiles.push(idx);
        Ok(())
    }

    fn push_step(&self, cells: &mut Vec<Coordinate>, coord: Coordinate, dx: i8, dy: i8)
        requires
            self.wf(),
            -1 <= dx <= 1,
            -1 <= dy <= 1,
            forall|j: int|
                0 <= j < old(cells)@.len() ==> in_bounds(self.dims(), #[trigger] old(cells)@[j]),
        ensures
            final(cells)@ == old(cells)@ + step_in_grid(self.dims(), coord, dx as int, dy as int),
            forall|j: int|
                0 <= j < final(cells)@.len() ==> in_bounds(
                    self.dims(),
                    #[trigger] final(cells)@[j],
                ),
    {
        let x_ok = (dx >= 0 || coord.x > 0) && (dx <= 0 || coord.x < usize::MAX);
        let y_ok = (dy >= 0 || coord.y > 0) && (dy <= 0 || coord.y < usize::MAX);
        if x_ok && y_ok {
            let x: usize = if dx < 0 {
                coord.x - 1
            } else if dx > 0 {
                coord.x + 1
            } else {
                coord.x
            };
            let y: usize = if dy < 0 {
                coord.y - 1
            } else if dy > 0 {
                coord.y + 1
            } else {
                coord.y
            };
            let c = Coordinate { x, y };
            if self.coord_in_bounds(c) {
                cells.push(c);
            }
        }
        assert(cells@ =~= old(cells)@ + step_in_grid(self.dims(), coord, dx as int, dy as int));
    }

    fn coord_cardinals(&self, coord: Coordinate) -> (result: Vec<Coordinate>)
        requires
            self.wf(),
        ensures
            result@ == cardinal_neighbors(self.dims(), coord),
            forall|j: int| 0 <= j < result@.len() ==> in_bounds(self.dims(), #[trigger] result@[j]),
    {
        let mut result: Vec<Coordinate> = Vec::new();
        self.push_step(&mut result, coord, 1, 0);
        self.push_step(&mut result, coord, 0, 1);
        self.push_step(&mut result, coord, -1, 0);
        self.push_step(&mut result, coord, 0, -1);
        assert(result@ =~= cardinal_neighbors(self.dims(), coord));
        result
    }

    /// The indices of the neighbours of `coord` along the axes that lie in the
    /// grid: east, south, west, north.
    pub fn coord_cardinal_indices(&self, coord: Coordinate) -> (result: Vec<usize>)
        requires
            self.wf(),
        ensures
            result@ == indices_of(self.dims(), cardinal_neighbors(self.dims(), coord)),
            forall|j: int| 0 <= j < result@.len() ==> #[trigger] result@[j] < self.cells().len(),
    {
        let cells = self.coord_cardinals(coord);
        self.indices(&cells)
    }

    /// The indices of the neighbours of `coord` along the axes and the
    /// diagonals that lie in the grid, row by row from the north-west.
    pub fn coord_moore_indices(&self, coord: Coordinate) -> (result: Vec<usize>)
        requires
            self.wf(),
        ensures
            result@ == indices_of(self.dims(), moore_neighbors(self.dims(), coord)),
            forall|j: int| 0 <= j < result@.len() ==> #[trigger] result@[j] < self.cells().len(),
    {
        let mut cells: Vec<Coordinate> = Vec::new();
        self.push_step(&mut cells, coord, -1, -1);
        self.push_step(&mut cells, coord, 0, -1);
        self.push_step(&mut cells, coord, 1, -1);
        self.push_step(&mut cells, coord, -1, 0);
        self.push_step(&mut cells, coord, 1, 0);
        self.push_step(&mut cells, coord, -1, 1);
        self.push_step(&mut cells, coord, 0, 1);
        self.push_step(&mut cells, coord, 1, 1);
        assert(cells@ =~= moore_neighbors(self.dims(), coord));
        self.indices(&cells)
    }

    fn indices(&self, cells: &Vec<Coordinate>) -> (result: Vec<usize>)
        requires
            self.wf(),
            forall|j: int| 0 <= j < cells@.len() ==> in_bounds(self.dims(), #[trigger] cells@[j]),
        ensures
            result@ == indices_of(self.dims(), cells@),
            forall|j: int| 0 <= j < result@.len() ==> #[trigger] result@[j] < self.cells().len(),
    {
        let mut result: Vec<usize> = Vec::new();
        let mut i: usize = 0;
        while i < cells.len()
            invariant
                self.wf(),
                i <= cells@.len(),
                forall|j: int|
                    0 <= j < cells@.len() ==> in_bounds(self.dims(), #[trigger] cells@[j]),
                result@.len() == i,
                forall|j: int|
                    0 <= j < i ==> #[trigger] result@[j] == index_of(self.dims(), cells@[j])
                        && result@[j] < self.cells().len(),
            decreases cells@.len() - i,
        {
            match self.coord_to_idx(cells[i]) {
                Ok(idx) => {
                    result.push(idx);
                },
                Err(_) => {},
            }
            i += 1;
        }
        assert(result@ =~= indices_of(self.dims(), cells@));
        result
    }

    /// The type of the tile at `coord`, or `OutOfBounds` where the cell is
    /// not in the grid.
    pub fn tile_type_at_coord(&self, coord: Coordinate) -> (r: Result<&TileType, MapError>)
        requires
            self.wf(),
        ensures
            in_bounds(self.dims(), coord) ==> r == Ok::<&TileType, MapError>(
                &self.cells()[index_of(self.dims(), coord)].tile_type,
            ),
            !in_bounds(self.dims(), coord) ==> r == Err::<&TileType, MapError>(
                MapError::OutOfBounds,
            ),
    {
        match self.coord_to_idx(coord) {
            Ok(idx) => Ok(&self.tiles[idx].tile_type),
            Err(e) => Err(e),
        }
    }

    /// The structure on the tile at `coord`, or `OutOfBounds` where the cell
    /// is not in the grid.
    pub fn structure_at_coord(&self, coord: Coordinate) -> (r: Result<&Structure, MapError>)
        requires
            self.wf(),
        ensures
            in_bounds(self.dims(), coord) ==> r == Ok::<&Structure, MapError>(
                &self.cells()[index_of(self.dims(), coord)].structure,
            ),
            !in_bounds(self.dims(), coord) ==> r == Err::<&Structure, MapError>(
                MapError::OutOfBounds,
            ),
    {
        match self.coord_to_idx(coord) {
            Ok(idx) => Ok(&self.tiles[idx].structure),
            Err(e) => Err(e),
        }
    }

    /// Adds `affliction` to the charge of the tile at `idx`. Where the grid
    /// has no such tile nothing happens and the result is `false`.
    pub fn apply_affliction(&mut self, idx: usize, affliction: &ElementalAffliction) -> (done: bool)
        requires
            old(self).wf(),
        ensures
            final(self).wf(),
            final(self).dims() == old(self).dims(),
            final(self).dirty() == old(self).dirty(),
            final(self).resized() == old(self).resized(),
            final(self).entry() == old(self).entry(),
            final(self).exit() == old(self).exit(),
            done == (idx < old(self).cells().len()),
            !done ==> final(self).cells() == old(self).cells(),
            done ==> final(self).cells() == old(self).cells().update(
                idx as int,
                charged_tile(old(self).cells()[idx as int], *affliction),
            ),
    {
        if idx >= self.tiles.len() {
            return false;
        }
        let current = self.tiles[idx];
        let mut charge = match current.affliction {
            Some(existing) => existing,
            None => ElementalAffliction::empty(),
        };
        charge.add_all(affliction);
        self.tiles.set(
            idx,
            Tile {
                tile_type: current.tile_type,
                structure: current.structure,
                affliction: Some(charge),
            },
        );
        assert(self.tiles@ =~= old(self).tiles@.update(
            idx as int,
            charged_tile(old(self).tiles@[idx as int], *affliction),
        ));
        true
    }

    /// Takes `affliction` away from the charge of the tile at `idx`, element
    /// by element and never below zero. Where the grid has no such tile
    /// nothing happens and the result is `false`.
    pub fn remove_affliction(&mut self, idx: usize, affliction: &ElementalAffliction) -> (done:
        bool)
        requires
            old(self).wf(),
        ensures
            final(self).wf(),
            final(self).dims() == old(self).dims(),
            final(self).dirty() == old(self).dirty(),
            final(self).resized() == old(self).resized(),
            final(self).entry() == old(self).entry(),
            final(self).exit() == old(self).exit(),
            done == (idx < old(self).cells().len()),
            !done ==> final(self).cells() == old(self).cells(),
            done ==> final(self).cells() == old(self).cells().update(
                idx as int,
                drained_tile(old(self).cells()[idx as int], *affliction),
            ),
    {
        if idx >= self.tiles.len() {
            return false;
        }
        let current = self.tiles[idx];
        let mut charge = match current.affliction {
            Some(existing) => existing,
            None => ElementalAffliction::empty(),
        };
        charge.subtract(affliction);
        self.tiles.set(
            idx,
            Tile {
                tile_type: current.tile_type,
                structure: current.structure,
                affliction: Some(charge),
            },
        );
        assert(self.tiles@ =~= old(self).tiles@.update(
            idx as int,
            drained_tile(old(self).tiles@[idx as int], *affliction),
        ));
        true
    }

    /// The indices of the tiles edited since the list was last cleared.
    pub fn dirty_tiles(&self) -> (r: &Vec<usize>)
        requires
            self.wf(),
        ensures
            r@ == self.dirty(),
    {
        &self.dirty_tiles
    }

    /// Hands out the list of edited tiles and starts a new, empty one.
    pub fn take_dirty_tiles(&mut self) -> (taken: Vec<usize>)
        requires
            old(self).wf(),
        ensures
            final(self).wf(),
            taken@ == old(self).dirty(),
            final(self).dirty() == Seq::<usize>::empty(),
            final(self).dims() == old(self).dims(),
            final(self).cells() == old(self).cells(),
            final(self).resized() == old(self).resized(),
            final(self).entry() == old(self).entry(),
            final(self).exit() == old(self).exit(),
    {
        let mut taken: Vec<usize> = Vec::new();
        core::mem::swap(&mut taken, &mut self.dirty_tiles);
        taken
    }

    /// Whether the grid changed size since the flag was last cleared.
    pub fn size_dirty(&self) -> (r: bool)
        requires
            self.wf(),
        ensures
            r == self.resized(),
    {
        self.size_dirty
    }

    /// Clears the resize flag, once consumers have rebuilt what depends on
    /// the grid's size.
    pub fn clear_size_dirty(&mut self)
        requires
            old(self).wf(),
        ensures
            final(self).wf(),
            !final(self).resized(),
            final(self).dims() == old(self).dims(),
            final(self).cells() == old(self).cells(),
            final(self).dirty() == old(self).dirty(),
            final(self).entry() == old(self).entry(),
            final(self).exit() == old(self).exit(),
    {
        self.size_dirty = false;
    }

    /// Where a wave enters the grid.
    pub fn wave_entry_coord(&self) -> (c: Coordinate)
        requires
            self.wf(),
        ensures
            c == self.entry(),
    {
        self.wave_entry_coord
    }

    /// Where a wave leaves the grid.
    pub fn wave_exit_coord(&self) -> (c: Coordinate)
        requires
            self.wf(),
        ensures
            c == self.exit(),
    {
        self.wave_exit_coord
    }

    /// Moves the point where a wave enters the grid.
    pub fn set_wave_entry_coord(&mut self, coord: Coordinate)
        requires
            old(self).wf(),
        ensures
            final(self).wf(),
            final(self).entry() == coord,
            final(self).exit() == old(self).exit(),
            final(self).dims() == old(self).dims(),
            final(self).cells() == old(self).cells(),
            final(self).dirty() == old(self).dirty(),
            final(self).resized() == old(self).resized(),
    {
        self.wave_entry_coord = coord;
    }

    /// Moves the point where a wave leaves the grid.
    pub fn set_wave_exit_coord(&mut self, coord: Coordinate)
        requires
            old(self).wf(),
        ensures
            final(self).wf(),
            final(self).exit() == coord,
            final(self).entry() == old(self).entry(),
            final(self).dims() == old(self).dims(),
            final(self).cells() == old(self).cells(),
            final(self).dirty() == old(self).dirty(),
            final(self).resized() == old(self).resized(),
    {
        self.wave_exit_coord = coord;
    }
}

/// Whether the grid changed size since consumers last rebuilt.
pub fn is_map_resized(map: &GridMap) -> (r: bool)
    requires
        map.wf(),
    ensures
        r == map.resized(),
{
    map.size_dirty()
}

/// Whether any tile was edited since the list of edits was last cleared.
pub fn are_tiles_dirty(map: &GridMap) -> (r: bool)
    requires
        map.wf(),
    ensures
        r == (map.dirty().len() > 0),
{
    map.dirty_tiles().len() > 0
}


/// A tile whose picture has to be redrawn: its index and the type it has
/// now.
#[derive(Clone, Copy, Debug, PartialEq, Eq, Structural)]
pub struct TileUpdate {
    pub index: usize,
    pub tile_type: TileType,
}

/// The first `n` tiles that were edited, in the order of the grid, each
/// with its type.
pub open spec fn edited_among(cells: Seq<Tile>, dirty: Seq<usize>, n: nat) -> Seq<TileUpdate>
    decreases n,
{
    if n == 0 {
        seq![]
    } else if dirty.contains((n - 1) as usize) {
        edited_among(cells, dirty, (n - 1) as nat).push(
            TileUpdate { index: (n - 1) as usize, tile_type: cells[n - 1].tile_type },
        )
    } else {
        edited_among(cells, dirty, (n - 1) as nat)
    }
}

/// Whether `idx` is on the list.
fn listed(list: &Vec<usize>, idx: usize) -> (r: bool)
    ensures
        r == list@.contains(idx),
{
    let mut i: usize = 0;
    while i < list.len()
        invariant
            i <= list@.len(),
            forall|k: int| 0 <= k < i ==> list@[k] != idx,
        decreases list@.len() - i,
    {
        if list[i] == idx {
            return true;
        }
        i += 1;
    }
    false
}

/// Hands the edits of the cycle to whoever draws the grid: every tile that
/// was edited, once and in the order of the grid, with the type it has
/// now. The list of edited tiles is empty afterwards.
pub fn update_changed_tiles(map: &mut GridMap) -> (updates: Vec<TileUpdate>)
    requires
        old(map).wf(),
    ensures
        final(map).wf(),
        final(map).dims() == old(map).dims(),
        final(map).cells() == old(map).cells(),
        final(map).resized() == old(map).resized(),
        final(map).entry() == old(map).entry(),
        final(map).exit() == old(map).exit(),
        final(map).dirty() == Seq::<usize>::empty(),
        updates@ == edited_among(old(map).cells(), old(map).dirty(), old(map).cells().len()),
{
    let dirty = map.take_dirty_tiles();
    let mut updates: Vec<TileUpdate> = Vec::new();
    let count = map.tile_count();
    let mut idx: usize = 0;
    while idx < count
        invariant
            map.wf(),
            idx <= count,
            count == map.cells().len(),
            updates@ == edited_among(map.cells(), dirty@, idx as nat),
        decreases count - idx,
    {
        if listed(&dirty, idx) {
            match map.tile_type_at_index(idx) {
                Some(tile_type) => {
                    updates.push(TileUpdate { index: idx, tile_type: *tile_type });
                },
                None => {},
            }
        }
        idx += 1;
    }
    updates
}

/// What has to be done to the pictures of the tiles after the grid was
/// resized.
#[derive(Clone, Copy, Debug, PartialEq, Eq, Structural)]
pub enum Reload {
    /// As many pictures as tiles: nothing to add or to drop.
    Keep,
    /// So many pictures are missing.
    Spawn(usize),
    /// The pictures from this place on are too many.
    DespawnFrom(usize),
}

/// What a resize asks of whoever draws the grid, and the end of the
/// resize: with `existing` pictures at hand, pictures are added up to the
/// number of tiles, or dropped from that number on. The grid is no longer
/// flagged as resized.
pub fn reload_all_map_tiles(map: &mut GridMap, existing: usize) -> (r: Reload)
    requires
        old(map).wf(),
    ensures
        final(map).wf(),
        final(map).dims() == old(map).dims(),
        final(map).cells() == old(map).cells(),
        final(map).dirty() == old(map).dirty(),
        final(map).entry() == old(map).entry(),
        final(map).exit() == old(map).exit(),
        !final(map).resized(),
        r == (if existing < old(map).cells().len() {
            Reload::Spawn((old(map).cells().len() - existing) as usize)
        } else if existing > old(map).cells().len() {
            Reload::DespawnFrom(old(map).cells().len() as usize)
        } else {
            Reload::Keep
        }),
{
    let count = map.tile_count();
    map.clear_size_dirty();
    if existing < count {
        Reload::Spawn(count - existing)
    } else if existing > count {
        Reload::DespawnFrom(count)
    } else {
        Reload::Keep
    }
}

/// The tiles on which the portals of the wave stand: where it enters and
/// where it leaves. A grid without tiles has no portals, and neither has
/// one whose ends lie outside it.
pub fn place_portals(map: &GridMap) -> (r: Option<(usize, usize)>)
    requires
        map.wf(),
    ensures
        r == (if in_bounds(map.dims(), map.entry()) && in_bounds(map.dims(), map.exit()) {
            Some(
                (
                    index_of(map.dims(), map.entry()) as usize,
                    index_of(map.dims(), map.exit()) as usize,
                ),
            )
        } else {
            None
        }),
{
    match map.coord_to_idx(map.wave_entry_coord()) {
        Ok(entry) => match map.coord_to_idx(map.wave_exit_coord()) {
            Ok(exit) => Some((entry, exit)),
            Err(_) => None,
        },
        Err(_) => None,
    }
}

} // verus!
