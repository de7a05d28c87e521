//! The search for the finest tile window that holds a set of points.

use crate::err::Error;
use crate::projection::{WorldPoint, WORLD};
use crate::tile::{lemma_span_bounds, span, tile_of, tile_span, Tile, WINDOW_TILES};
use vstd::arithmetic::div_mod::*;
use vstd::arithmetic::power2::*;
use vstd::prelude::*;

verus! {

/// The finest zoom level that the search tries first.
pub const MAX_ZOOM: u8 = 19;

/// The coarsest zoom level that the search tries.
pub const MIN_ZOOM: u8 = 10;

/// Coordinate of `p` along the vertical axis (`y`) or the horizontal one (`x`).
pub open spec fn coord(p: WorldPoint, vertical: bool) -> int {
    if vertical {
        p.y as int
    } else {
        p.x as int
    }
}

/// Smallest coordinate along one axis over a non-empty sequence of points.
pub open spec fn low(s: Seq<WorldPoint>, vertical: bool) -> int
    decreases s.len(),
{
    if s.len() <= 1 {
        coord(s[0], vertical)
    } else {
        let m = low(s.drop_last(), vertical);
        let c = coord(s.last(), vertical);
        if c < m {
            c
        } else {
            m
        }
    }
}

/// Largest coordinate along one axis over a non-empty sequence of points.
pub open spec fn high(s: Seq<WorldPoint>, vertical: bool) -> int
    decreases s.len(),
{
    if s.len() <= 1 {
        coord(s[0], vertical)
    } else {
        let m = high(s.drop_last(), vertical);
        let c = coord(s.last(), vertical);
        if c > m {
            c
        } else {
            m
        }
    }
}

/// The bounding box of `s` spans fewer than `WINDOW_TILES` tiles of zoom
/// level `z` on both axes.
pub open spec fn fits(s: Seq<WorldPoint>, z: nat) -> bool {
    &&& tile_of(high(s, false), z) - tile_of(low(s, false), z) < WINDOW_TILES
    &&& tile_of(high(s, true), z) - tile_of(low(s, true), z) < WINDOW_TILES
}

/// The first zoom level at which `s` fits, trying `z`, `z - 1`, ... down
/// to `MIN_ZOOM`.
pub open spec fn fitting_zoom(s: Seq<WorldPoint>, z: nat) -> Option<nat>
    decreases z,
{
    if z < MIN_ZOOM {
        None
    } else if fits(s, z) {
        Some(z)
    } else {
        fitting_zoom(s, (z - 1) as nat)
    }
}

/// The window tile for `s`: at the finest fitting zoom level, the tile that
/// holds the western-most and northern-most coordinates.
pub open spec fn bounding_tile_spec(s: Seq<WorldPoint>) -> Result<Tile, Error> {
    match fitting_zoom(s, MAX_ZOOM as nat) {
        Some(z) => Ok(
            Tile {
                x: tile_of(low(s, false), z) as u32,
                y: tile_of(low(s, true), z) as u32,
                z: z as u8,
            },
        ),
        None => Err(Error::NoFittingZoom),
    }
}

/// Every point of the non-empty sequence `s` lies in the window of
/// `WINDOW_TILES` by `WINDOW_TILES` tiles whose upper-left tile is `t`.
pub open spec fn window_holds(t: Tile, s: Seq<WorldPoint>) -> bool {
    forall|i: int|
        0 <= i < s.len() ==> {
            &&& t.x <= #[trigger] tile_of(s[i].x as int, t.z as nat) < t.x + WINDOW_TILES
            &&& t.y <= tile_of(s[i].y as int, t.z as nat) < t.y + WINDOW_TILES
        }
}

proof fn lemma_low_high(s: Seq<WorldPoint>, vertical: bool, i: int)
    requires
        0 <= i < s.len(),
    ensures
        low(s, vertical) <= coord(s[i], vertical) <= high(s, vertical),
    decreases s.len(),
{
    if s.len() > 1 && i < s.len() - 1 {
        lemma_low_high(s.drop_last(), vertical, i);
    }
}

proof fn lemma_low_high_bounds(s: Seq<WorldPoint>, vertical: bool)
    requires
        s.len() > 0,
        forall|i: int| 0 <= i < s.len() ==> (#[trigger] s[i]).wf(),
    ensures
        0 <= low(s, vertical) <= high(s, vertical) <= WORLD,
    decreases s.len(),
{
    lemma_low_high(s, vertical, 0);
    if s.len() > 1 {
        lemma_low_high_bounds(s.drop_last(), vertical);
    }
}

/// A found tile's window holds every point it was found for.
proof fn lemma_found_window_holds(s: Seq<WorldPoint>, z: nat)
    requires
        s.len() > 0,
        z <= 32,
        fits(s, z),
        forall|i: int| 0 <= i < s.len() ==> (#[trigger] s[i]).wf(),
    ensures
        forall|i: int|
            0 <= i < s.len() ==> {
                &&& tile_of(low(s, false), z) <= #[trigger] tile_of(s[i].x as int, z)
                    < tile_of(low(s, false), z) + WINDOW_TILES
                &&& tile_of(low(s, true), z) <= tile_of(s[i].y as int, z) < tile_of(
                    low(s, true),
                    z,
                ) + WINDOW_TILES
            },
{
    lemma_span_bounds(z);
    let d = span(z) as int;
    assert forall|i: int| 0 <= i < s.len() implies {
        &&& tile_of(low(s, false), z) <= #[trigger] tile_of(s[i].x as int, z) < tile_of(
            low(s, false),
            z,
        ) + WINDOW_TILES
        &&& tile_of(low(s, true), z) <= tile_of(s[i].y as int, z) < tile_of(low(s, true), z)
            + WINDOW_TILES
    } by {
        lemma_low_high(s, false, i);
        lemma_low_high(s, true, i);
        lemma_div_is_ordered(low(s, false), s[i].x as int, d);
        lemma_div_is_ordered(s[i].x as int, high(s, false), d);
        lemma_div_is_ordered(low(s, true), s[i].y as int, d);
        lemma_div_is_ordered(s[i].y as int, high(s, true), d);
    }
}

proof fn lemma_fitting_zoom_range(s: Seq<WorldPoint>, z: nat)
    ensures
        match fitting_zoom(s, z) {
            Some(f) => MIN_ZOOM <= f <= z && fits(s, f),
            None => true,
        },
    decreases z,
{
    if z >= MIN_ZOOM && !fits(s, z) {
        lemma_fitting_zoom_range(s, (z - 1) as nat);
    }
}

fn extent(points: &Vec<WorldPoint>, vertical: bool) -> (r: (u64, u64))
    requires
        points.len() > 0,
    ensures
        r.0 == low(points@, vertical),
        r.1 == high(points@, vertical),
{
    let p0 = points[0];
    let mut lo: u64 = if vertical {
        p0.y
    } else {
        p0.x
    };
    let mut hi: u64 = lo;
    let mut i: usize = 1;
    proof {
        assert(points@.subrange(0, 1).len() == 1);
    }
    while i < points.len()
        invariant
            1 <= i <= points.len(),
            lo == low(points@.subrange(0, i as int), vertical),
            hi == high(points@.subrange(0, i as int), vertical),
        decreases points.len() - i,
    {
        let p = points[i];
        let c: u64 = if vertical {
            p.y
        } else {
            p.x
        };
        proof {
            let next = points@.subrange(0, i + 1);
            assert(next.drop_last() =~= points@.subrange(0, i as int));
            assert(next.last() == p);
        }
        if c < lo {
            lo = c;
        }
        if c > hi {
            hi = c;
        }
        i = i + 1;
    }
    proof {
        assert(points@.subrange(0, i as int) =~= points@);
    }
    (lo, hi)
}

/// The tile whose window of `WINDOW_TILES` by `WINDOW_TILES` tiles holds all
/// of `points`, at the finest zoom level from `MAX_ZOOM` down to `MIN_ZOOM`
/// where the points' bounding box spans fewer than `WINDOW_TILES` tiles on
/// each axis. `Error::NoFittingZoom` when there is no such level.
pub fn bounding_tile(points: &Vec<WorldPoint>) -> (r: Result<Tile, Error>)
    requires
        points.len() > 0,
        forall|i: int| 0 <= i < points.len() ==> (#[trigger] points[i]).wf(),
    ensures
        r == bounding_tile_spec(points@),
        r matches Ok(t) ==> window_holds(t, points@) && MIN_ZOOM <= t.z <= MAX_ZOOM && t.x
            <= pow2(t.z as nat) && t.y <= pow2(t.z as nat),
{
    let ghost s = points@;
    let (min_x, max_x) = extent(points, false);
    let (min_y, max_y) = extent(points, true);
    proof {
        lemma_low_high_bounds(s, false);
        lemma_low_high_bounds(s, true);
        lemma_fitting_zoom_range(s, MAX_ZOOM as nat);
    }
    let mut z: u8 = MAX_ZOOM;
    while z >= MIN_ZOOM
        invariant
            MIN_ZOOM - 1 <= z <= MAX_ZOOM,
            fitting_zoom(s, MAX_ZOOM as nat) == fitting_zoom(s, z as nat),
            s == points@,
            s.len() > 0,
            forall|i: int| 0 <= i < s.len() ==> (#[trigger] s[i]).wf(),
            min_x == low(s, false),
            max_x == high(s, false),
            min_y == low(s, true),
            max_y == high(s, true),
            0 <= min_x <= max_x <= WORLD,
            0 <= min_y <= max_y <= WORLD,
        decreases z,
    {
        let d = tile_span(z);
        proof {
            lemma_span_bounds(z as nat);
            lemma2_to64();
            lemma_pow2_strictly_increases(z as nat, 32);
            lemma_div_is_ordered(min_x as int, max_x as int, d as int);
            lemma_div_is_ordered(min_y as int, max_y as int, d as int);
            lemma_div_is_ordered(max_x as int, WORLD as int, d as int);
            lemma_div_is_ordered(max_y as int, WORLD as int, d as int);
            lemma_fundamental_div_mod_converse_div(
                WORLD as int,
                d as int,
                pow2(z as nat) as int,
                0,
            );
        }
        let x = min_x / d;
        let y = min_y / d;
        let dx = max_x / d - x;
        let dy = max_y / d - y;
        if dx < WINDOW_TILES && dy < WINDOW_TILES {
            proof {
                lemma_found_window_holds(s, z as nat);
            }
            return Ok(Tile { x: x as u32, y: y as u32, z });
        }
        z = z - 1;
    }
    Err(Error::NoFittingZoom)
}

/// The window of the tile found for `s` holds every point of `s`, at a
/// zoom level of the searched range.
pub proof fn lemma_bounding_window_holds(s: Seq<WorldPoint>)
    requires
        s.len() > 0,
        forall|i: int| 0 <= i < s.len() ==> (#[trigger] s[i]).wf(),
    ensures
        bounding_tile_spec(s) matches Ok(t) ==> window_holds(t, s) && MIN_ZOOM <= t.z <= MAX_ZOOM,
{
    lemma_fitting_zoom_range(s, MAX_ZOOM as nat);
    if let Some(z) = fitting_zoom(s, MAX_ZOOM as nat) {
        lemma_found_window_holds(s, z);
        lemma_low_high_bounds(s, false);
        lemma_low_high_bounds(s, true);
        lemma_span_bounds(z);
        let d = span(z) as int;
        lemma_div_is_ordered(low(s, false), WORLD as int, d);
        lemma_div_is_ordered(low(s, true), WORLD as int, d);
        lemma_fundamental_div_mod_converse_div(WORLD as int, d, pow2(z) as int, 0);
        lemma2_to64();
        lemma_pow2_strictly_increases(z, 32);
    }
}

/// A single point always fits: its window is found at `MAX_ZOOM`, with the
/// point's own tile as the upper-left tile.
pub proof fn lemma_single_point_max_zoom(p: WorldPoint)
    requires
        p.wf(),
    ensures
        bounding_tile_spec(seq![p]) == Ok::<Tile, Error>(
            Tile {
                x: tile_of(p.x as int, MAX_ZOOM as nat) as u32,
                y: tile_of(p.y as int, MAX_ZOOM as nat) as u32,
                z: MAX_ZOOM,
            },
        ),
{
    let s = seq![p];
    assert(low(s, false) == p.x && high(s, false) == p.x);
    assert(low(s, true) == p.y && high(s, true) == p.y);
    assert(fits(s, MAX_ZOOM as nat));
}

} // verus!
