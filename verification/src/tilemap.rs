//! Winding paths: a map of the older kind, on which a track runs from the
//! left edge to the right and everything else is open ground, trees and
//! rocks.

use crate::coordinate::Coordinate;
use crate::random::random_in_range;
use crate::text::signed_decimal;
use crate::text::signed_decimal_text;
use vstd::prelude::*;
use vstd::string::*;

verus! {

/// The shape of a piece of path.
#[derive(Copy, Clone, Debug, PartialEq, Eq, Structural)]
pub enum PathType {
    Straight,
    Corner,
}

/// How a piece of path is turned about the vertical axis.
#[derive(Copy, Clone, Debug, PartialEq, Eq, Structural)]
pub enum Rotation {
    /// Not turned.
    Zero,
    /// A quarter turn.
    Quarter,
    /// Half a turn.
    Half,
    /// A quarter turn the other way.
    BackQuarter,
}

/// What stands on a tile of the older kind of map.
#[derive(Copy, Clone, Debug, PartialEq, Eq, Structural)]
pub enum TileType {
    Empty,
    Rock,
    Tree,
    Path(PathType, Rotation),
}

/// A map of the older kind: so many tiles wide and high.
#[derive(Copy, Clone, Debug, PartialEq, Eq, Structural)]
pub struct TileMap {
    pub width: i32,
    pub height: i32,
}

/// A layout: the tiles row by row, and the corner points of the track.
/// The first point lies one step left of the map, the last one step right
/// of its last column.
#[derive(Debug)]
pub struct Layout {
    pub tiles: Vec<TileType>,
    pub path_points: Vec<Coordinate>,
}

/// Whether `c` is a tile of a map of the given width and height.
pub open spec fn in_grid(width: int, height: int, c: Coordinate) -> bool {
    0 <= c.x < width && 0 <= c.y < height
}

/// The place of the tile `c` in the row-by-row list of a map's tiles.
pub open spec fn cell_index(width: int, c: Coordinate) -> int {
    c.x + c.y * width
}

/// Whether `v` lies between `a` and `b`, whichever is the greater.
pub open spec fn between(a: int, b: int, v: int) -> bool {
    (a <= v <= b) || (b <= v <= a)
}

/// Whether `c` lies on the straight stretch from `p` to `q`, ends
/// included. A stretch runs along a row or along a column.
pub open spec fn on_segment(p: Coordinate, q: Coordinate, c: Coordinate) -> bool {
    (p.y == q.y && c.y == p.y && between(p.x as int, q.x as int, c.x as int)) || (p.x == q.x
        && c.x == p.x && between(p.y as int, q.y as int, c.y as int))
}

/// Whether `c` lies on one of the first `n` stretches of the track through
/// `points`.
pub open spec fn on_track(points: Seq<Coordinate>, c: Coordinate, n: nat) -> bool
    decreases n,
{
    n > 0 && (on_track(points, c, (n - 1) as nat) || on_segment(points[n - 1], points[n as int], c))
}

/// Whether the track through `points` runs as a winding path does: it
/// starts one step left of the map, every point lies in a row that is
/// neither the first nor the last, and the stretches run to the right along
/// a row and up or down along a column in turn.
pub open spec fn winds(points: Seq<Coordinate>, height: int) -> bool {
    &&& points.len() >= 1
    &&& points[0].x == -1
    &&& forall|i: int| 0 <= i < points.len() ==> 1 <= (#[trigger] points[i]).y < height - 1
    &&& forall|i: int|
        0 < i < points.len() ==> if i % 2 == 1 {
            points[i - 1].y == (#[trigger] points[i]).y && points[i - 1].x < points[i].x
        } else {
            points[i - 1].x == (#[trigger] points[i]).x && points[i - 1].y != points[i].y
        }
}

/// Every tile of a map has its place in the list of tiles.
pub proof fn lemma_cell_index(width: int, height: int, c: Coordinate)
    requires
        in_grid(width, height, c),
    ensures
        0 <= cell_index(width, c) < width * height,
{
    let x = c.x as int;
    let y = c.y as int;
    assert(y * width + x < width * height) by (nonlinear_arith)
        requires
            0 <= x < width,
            0 <= y < height,
    ;
    assert(0 <= y * width) by (nonlinear_arith)
        requires
            0 <= y,
            0 <= width,
    ;
}

/// Two tiles of a map with the same place in the list are the same tile.
pub proof fn lemma_cell_index_injective(width: int, height: int, a: Coordinate, b: Coordinate)
    requires
        in_grid(width, height, a),
        in_grid(width, height, b),
        cell_index(width, a) == cell_index(width, b),
    ensures
        a == b,
{
    let (ax, ay, bx, by) = (a.x as int, a.y as int, b.x as int, b.y as int);
    assert(ay == by) by (nonlinear_arith)
        requires
            0 <= ax < width,
            0 <= bx < width,
            0 <= ay,
            0 <= by,
            ax + ay * width == bx + by * width,
    ;
    assert(ay * width == by * width);
}

impl TileMap {
    /// A map of the given width and height.
    pub fn new(width: i32, height: i32) -> (m: Self)
        ensures
            m.width == width,
            m.height == height,
    {
        Self { width, height }
    }

    /// What is said of a tile that the map does not have.
    pub open spec fn out_of_bounds(x: int, y: int) -> Seq<char> {
        "Index out of Bounds: ["@ + signed_decimal(x) + ", "@ + signed_decimal(y) + "]"@
    }

    /// The place of the tile (`x`, `y`) in the row-by-row list of tiles; a
    /// tile that the map does not have is refused by its name.
    pub fn coord_to_idx(&self, x: i32, y: i32) -> (r: Result<usize, String>)
        requires
            self.width * self.height <= i32::MAX,
        ensures
            in_grid(self.width as int, self.height as int, Coordinate { x, y }) ==> r
                == Ok::<usize, String>(
                cell_index(self.width as int, Coordinate { x, y }) as usize,
            ),
            !in_grid(self.width as int, self.height as int, Coordinate { x, y }) ==> r is Err
                && r->Err_0@ == Self::out_of_bounds(x as int, y as int),
    {
        if x >= 0 && x < self.width && y >= 0 && y < self.height {
            proof {
                lemma_cell_index(self.width as int, self.height as int, Coordinate { x, y });
            }
            Ok((x + (y * self.width)) as usize)
        } else {
            let mut text = String::from_str("Index out of Bounds: [");
            text.append(signed_decimal_text(x).as_str());
            text.append(", ");
            text.append(signed_decimal_text(y).as_str());
            text.append("]");
            Err(text)
        }
    }
}


proof fn lemma_on_track_prefix(a: Seq<Coordinate>, b: Seq<Coordinate>, c: Coordinate, n: nat)
    requires
        n < a.len(),
        n < b.len(),
        forall|i: int| 0 <= i <= n ==> a[i] == b[i],
    ensures
        on_track(a, c, n) == on_track(b, c, n),
    decreases n,
{
    if n > 0 {
        lemma_on_track_prefix(a, b, c, (n - 1) as nat);
    }
}

/// The last point of a track lies on it.
proof fn lemma_last_point_on_track(points: Seq<Coordinate>)
    requires
        points.len() >= 2,
        points[points.len() - 2].x == points.last().x || points[points.len() - 2].y
            == points.last().y,
    ensures
        on_track(points, points.last(), (points.len() - 1) as nat),
{
}

/// Whether the tile is a piece of path.
pub open spec fn is_path(t: TileType) -> bool {
    t is Path
}

impl TileMap {
    /// Puts `tile` on the cell (`x`, `y`).
    fn paint(&self, tiles: &mut Vec<TileType>, x: i32, y: i32, tile: TileType)
        requires
            self.width * self.height <= i32::MAX,
            in_grid(self.width as int, self.height as int, Coordinate { x, y }),
            old(tiles)@.len() == self.width * self.height,
        ensures
            final(tiles)@ == old(tiles)@.update(
                cell_index(self.width as int, Coordinate { x, y }),
                tile,
            ),
            0 <= cell_index(self.width as int, Coordinate { x, y }) < old(tiles)@.len(),
            forall|c: Coordinate|
                in_grid(self.width as int, self.height as int, c) && c != (Coordinate { x, y })
                    ==> #[trigger] final(tiles)@[cell_index(self.width as int, c)] == old(
                    tiles,
                )@[cell_index(self.width as int, c)],
    {
        proof {
            lemma_cell_index(self.width as int, self.height as int, Coordinate { x, y });
            assert forall|c: Coordinate|
                in_grid(self.width as int, self.height as int, c) && c != (Coordinate {
                    x,
                    y,
                }) implies cell_index(self.width as int, c) != cell_index(
                self.width as int,
                Coordinate { x, y },
            ) && 0 <= #[trigger] cell_index(self.width as int, c) < tiles@.len() by {
                lemma_cell_index(self.width as int, self.height as int, c);
                if cell_index(self.width as int, c) == cell_index(
                    self.width as int,
                    Coordinate { x, y },
                ) {
                    lemma_cell_index_injective(
                        self.width as int,
                        self.height as int,
                        c,
                        Coordinate { x, y },
                    );
                }
            }
        }
        match self.coord_to_idx(x, y) {
            Ok(idx) => {
                tiles.set(idx, tile);
            },
            Err(_) => {},
        }
    }

    /// A layout drawn by chance: a path that winds from the left edge of
    /// the map to the right, in runs of two to four tiles along a row and
    /// then up or down a column to another row, with trees and rocks strewn
    /// over one in ten of the other tiles.
    ///
    /// Whatever chance decides, the track winds as described, starts one
    /// step left of the map and ends one step right of it, and the pieces
    /// of path are exactly the tiles of the map that the track passes.
    pub fn generate_random_map_layout(&self) -> (layout: Layout)
        requires
            0 <= self.width,
            4 <= self.height,
            self.width * self.height <= i32::MAX,
        ensures
            layout.tiles@.len() == self.width * self.height,
            winds(layout.path_points@, self.height as int),
            self.width > 0 ==> layout.path_points@.len() % 2 == 0 && layout.path_points@.last().x
                == self.width,
            forall|c: Coordinate|
                in_grid(self.width as int, self.height as int, c) ==> (is_path(
                    layout.tiles@[cell_index(self.width as int, c)],
                ) <==> #[trigger] on_track(
                    layout.path_points@,
                    c,
                    (layout.path_points@.len() - 1) as nat,
                )),
    {
        let ghost w = self.width as int;
        let ghost h = self.height as int;
        assert(0 <= w * h) by (nonlinear_arith)
            requires
                0 <= w,
                0 <= h,
        ;
        let count = (self.width * self.height) as usize;
        let mut tiles: Vec<TileType> = Vec::new();
        let mut filled: usize = 0;
        while filled < count
            invariant
                filled <= count,
                tiles@.len() == filled,
                forall|i: int| 0 <= i < filled ==> tiles@[i] == TileType::Empty,
            decreases count - filled,
        {
            tiles.push(TileType::Empty);
            filled += 1;
        }

        let mut path_points: Vec<Coordinate> = Vec::new();
        let mut current_x: i32 = 0;
        let mut current_y: i32 = random_in_range(1, (self.height - 1) as u32) as i32;
        let mut just_went_up = false;
        path_points.push(Coordinate { x: current_x - 1, y: current_y });
        proof {
            assert forall|c: Coordinate| in_grid(w, h, c) implies (is_path(
                tiles@[cell_index(w, c)],
            ) <==> #[trigger] on_track(path_points@, c, 0)) by {
                lemma_cell_index(w, h, c);
            }
        }

        while current_x < self.width
            invariant
                w == self.width,
                h == self.height,
                0 <= w,
                4 <= h,
                w * h <= i32::MAX,
                tiles@.len() == w * h,
                0 <= current_x <= w,
                1 <= current_y < h - 1,
                winds(path_points@, h),
                path_points@.last().y == current_y,
                current_x < w || w == 0 ==> path_points@.len() % 2 == 1,
                path_points@.len() == 1 ==> current_x == 0,
                path_points@.len() > 1 ==> path_points@.last().x == current_x,
                current_x == w && w > 0 ==> path_points@.len() % 2 == 0,
                forall|c: Coordinate|
                    in_grid(w, h, c) ==> (is_path(tiles@[cell_index(w, c)]) <==> #[trigger] on_track(
                        path_points@,
                        c,
                        (path_points@.len() - 1) as nat,
                    )),
            decreases w - current_x,
        {
            let max_dist_right: i32 = if self.width - current_x < 4 {
                self.width - current_x
            } else {
                4
            };
            let least: i32 = if max_dist_right < 2 {
                max_dist_right
            } else {
                2
            };
            let dist_right: i32 = random_in_range(least as u32, (max_dist_right + 1) as u32) as i32;
            let ghost before = path_points@;
            let ghost segments = (before.len() - 1) as nat;
            let ghost row = current_y;
            let ghost from = current_x;

            let mut x: i32 = current_x;
            while x < current_x + dist_right
                invariant
                    w == self.width,
                    h == self.height,
                    w * h <= i32::MAX,
                    tiles@.len() == w * h,
                    0 <= current_x <= x <= current_x + dist_right <= w,
                    1 <= current_y < h - 1,
                    row == current_y,
                    from == current_x,
                    path_points@ == before,
                    segments == before.len() - 1,
                    forall|c: Coordinate|
                        in_grid(w, h, c) ==> (is_path(tiles@[cell_index(w, c)]) <==> (
                        #[trigger] on_track(before, c, segments) || (c.y == row && from <= c.x
                            < x))),
                decreases current_x + dist_right - x,
            {
                let corner_rot = if just_went_up {
                    Rotation::Half
                } else {
                    Rotation::BackQuarter
                };
                let piece = if x == current_x && current_x != 0 {
                    TileType::Path(PathType::Corner, corner_rot)
                } else {
                    TileType::Path(PathType::Straight, Rotation::Quarter)
                };
                self.paint(&mut tiles, x, current_y, piece);
                x += 1;
            }

            current_x += dist_right;
            path_points.push(Coordinate { x: current_x, y: current_y });
            let ghost run = path_points@;
            let ghost head = Coordinate { x: current_x, y: current_y };
            proof {
                assert forall|c: Coordinate| in_grid(w, h, c) implies (is_path(
                    tiles@[cell_index(w, c)],
                ) <==> (#[trigger] on_track(run, c, segments + 1) && c != head)) by {
                    lemma_on_track_prefix(before, run, c, segments);
                    assert(on_track(before, c, segments) || (c.y == row && from <= c.x
                        < current_x) <==> is_path(tiles@[cell_index(w, c)]));
                    if segments > 0 {
                        lemma_last_point_on_track(before);
                        if c == before.last() {
                            assert(on_track(before, c, segments));
                        }
                        if on_track(before, head, segments) {
                            lemma_track_stays_left(before, head, segments, h);
                        }
                    }
                }
            }

            if current_x < self.width {
                let drawn: i32 = random_in_range(1, (self.height - 2) as u32) as i32;
                let new_y: i32 = if drawn >= current_y {
                    drawn + 1
                } else {
                    drawn
                };
                let low: i32 = if current_y < new_y {
                    current_y
                } else {
                    new_y
                };
                let high: i32 = if current_y < new_y {
                    new_y
                } else {
                    current_y
                };
                let mut y: i32 = low;
                while y <= high
                    invariant
                        w == self.width,
                        h == self.height,
                        w * h <= i32::MAX,
                        tiles@.len() == w * h,
                        0 <= current_x < w,
                        1 <= low <= y <= high + 1,
                        high < h - 1,
                        low <= current_y <= high,
                        head == (Coordinate { x: current_x, y: current_y }),
                        path_points@ == run,
                        run.len() == segments + 2,
                        forall|c: Coordinate|
                            in_grid(w, h, c) ==> (is_path(tiles@[cell_index(w, c)]) <==> ((
                            #[trigger] on_track(run, c, segments + 1) && c != head) || (c.x
                                == current_x && low <= c.y < y))),
                    decreases high + 1 - y,
                {
                    let piece = if y == current_y {
                        if new_y > current_y {
                            TileType::Path(PathType::Corner, Rotation::Quarter)
                        } else {
                            TileType::Path(PathType::Corner, Rotation::Zero)
                        }
                    } else {
                        TileType::Path(PathType::Straight, Rotation::Zero)
                    };
                    let ghost earlier = tiles@;
                    self.paint(&mut tiles, current_x, y, piece);
                    proof {
                        let here = Coordinate { x: current_x, y };
                        assert forall|c: Coordinate| in_grid(w, h, c) implies (is_path(
                            tiles@[cell_index(w, c)],
                        ) <==> ((#[trigger] on_track(run, c, segments + 1) && c != head) || (c.x
                            == current_x && low <= c.y < y + 1))) by {
                            if c == here {
                                assert(is_path(tiles@[cell_index(w, c)]));
                            } else {
                                assert(tiles@[cell_index(w, c)] == earlier[cell_index(w, c)]);
                                assert(is_path(earlier[cell_index(w, c)]) <==> ((on_track(
                                    run,
                                    c,
                                    segments + 1,
                                ) && c != head) || (c.x == current_x && low <= c.y < y)));
                            }
                        }
                    }
                    y += 1;
                }
                just_went_up = new_y < current_y;
                current_y = new_y;
                path_points.push(Coordinate { x: current_x, y: current_y });
                proof {
                    let turn = path_points@;
                    assert forall|c: Coordinate| in_grid(w, h, c) implies (is_path(
                        tiles@[cell_index(w, c)],
                    ) <==> #[trigger] on_track(turn, c, segments + 2)) by {
                        lemma_on_track_prefix(run, turn, c, segments + 1);
                        lemma_last_point_on_track(run);
                        assert(on_track(run, head, segments + 1));
                        assert((on_track(run, c, segments + 1) && c != head) || (c.x == head.x
                            && low <= c.y <= high) <==> is_path(tiles@[cell_index(w, c)]));
                    }
                }
            }
        }

        let ghost laid = tiles@;
        let mut i: usize = 0;
        while i < tiles.len()
            invariant
                i <= tiles@.len(),
                tiles@.len() == laid.len(),
                forall|j: int| 0 <= j < laid.len() ==> is_path(#[trigger] tiles@[j]) == is_path(
                    laid[j],
                ),
            decreases tiles@.len() - i,
        {
            match tiles[i] {
                TileType::Empty => {
                    if random_in_range(0, 10) == 9 {
                        if random_in_range(0, 2) == 1 {
                            tiles.set(i, TileType::Tree);
                        } else {
                            tiles.set(i, TileType::Rock);
                        }
                    }
                },
                _ => {},
            }
            i += 1;
        }
        proof {
            assert forall|c: Coordinate| in_grid(w, h, c) implies (is_path(
                tiles@[cell_index(w, c)],
            ) <==> #[trigger] on_track(path_points@, c, (path_points@.len() - 1) as nat)) by {
                lemma_cell_index(w, h, c);
            }
        }
        Layout { tiles, path_points }
    }
}

/// A winding track never reaches further right than its last point.
proof fn lemma_track_stays_left(points: Seq<Coordinate>, c: Coordinate, n: nat, height: int)
    requires
        winds(points, height),
        n < points.len(),
        on_track(points, c, n),
    ensures
        c.x <= points[n as int].x,
    decreases n,
{
    lemma_points_rise(points, height, n);
    if n > 0 && on_track(points, c, (n - 1) as nat) {
        lemma_track_stays_left(points, c, (n - 1) as nat, height);
        lemma_points_rise(points, height, (n - 1) as nat);
    }
}

/// Along a winding track the points never step back to the left.
proof fn lemma_points_rise(points: Seq<Coordinate>, height: int, n: nat)
    requires
        winds(points, height),
        n < points.len(),
    ensures
        forall|i: int| 0 <= i <= n ==> (#[trigger] points[i]).x <= points[n as int].x,
        n > 0 ==> points[n - 1].x <= points[n as int].x,
    decreases n,
{
    if n > 0 {
        lemma_points_rise(points, height, (n - 1) as nat);
        assert(points[n - 1].x <= points[n as int].x);
    }
}

} // verus!
