//! Longitudes and the Web-Mercator tile grid, in exact integer arithmetic.
//!
//! A longitude is held in units of 1e-7 degree, so that `[-180, 180]` is
//! `[-LON_HALF, LON_HALF]`. A position on the map is a `WorldPoint`: its
//! fraction of the world's width and height, scaled by `2^32`.

use vstd::arithmetic::div_mod::*;
use vstd::prelude::*;

verus! {

/// 180 degrees in units of 1e-7 degree.
pub const LON_HALF: i64 = 1_800_000_000;

/// 360 degrees in units of 1e-7 degree.
pub const LON_SPAN: u64 = 3_600_000_000;

/// Width and height of the world in `WorldPoint` units.
pub const WORLD: u64 = 4_294_967_296;

/// A point of the Web-Mercator square: `x` grows eastwards from longitude
/// -180, `y` grows southwards from the northern edge of the map. The unit is
/// `2^-32` of the world's width.
#[derive(Debug, Clone, Copy, PartialEq, Eq, Structural)]
pub struct WorldPoint {
    pub x: u64,
    pub y: u64,
}

impl WorldPoint {
    /// The point lies on the map, its edges included.
    pub open spec fn wf(&self) -> bool {
        self.x <= WORLD && self.y <= WORLD
    }
}

/// Fractional column of a longitude on a grid of `n` columns, rounded down:
/// `floor((lon + 180) / 360 * n)`.
pub open spec fn lon_x_spec(n: int, lon: int) -> int {
    (lon + LON_HALF) * n / (LON_SPAN as int)
}

/// The western edge of column `x` on a grid of `n` columns, as the smallest
/// longitude (in 1e-7 degree) that is not west of it.
pub open spec fn x_lon_spec(n: int, x: int) -> int {
    (x * LON_SPAN + n - 1) / n - LON_HALF
}

/// Column of the grid of `n` columns that holds longitude `lon` (1e-7 degree).
pub fn lon_x(n: u64, lon: i32) -> (r: u64)
    requires
        n <= WORLD,
        -LON_HALF <= lon <= LON_HALF,
    ensures
        r == lon_x_spec(n as int, lon as int),
{
    let a: u64 = (lon as i64 + LON_HALF) as u64;
    assert(a * n <= LON_SPAN * WORLD) by (nonlinear_arith)
        requires
            a <= LON_SPAN,
            n <= WORLD,
    ;
    a * n / LON_SPAN
}

/// Longitude (1e-7 degree) of the western edge of column `x` of a grid of `n`
/// columns, rounded up so that the point lies inside that column.
pub fn x_lon(n: u64, x: u32) -> (r: i32)
    requires
        0 < n <= WORLD,
        x <= n,
    ensures
        r == x_lon_spec(n as int, x as int),
{
    let xs: u64 = x as u64;
    assert(xs * LON_SPAN <= n * LON_SPAN) by (nonlinear_arith)
        requires
            xs <= n,
    ;
    assert(n * LON_SPAN <= WORLD * LON_SPAN) by (nonlinear_arith)
        requires
            n <= WORLD,
    ;
    let num: u64 = xs * LON_SPAN + (n - 1);
    let q: u64 = num / n;
    proof {
        assert(num < (LON_SPAN + 1) * n) by (nonlinear_arith)
            requires
                num == xs * LON_SPAN + (n - 1),
                xs <= n,
                n > 0,
        ;
        lemma_fundamental_div_mod(num as int, n as int);
        lemma_mod_pos_bound(num as int, n as int);
        assert(q <= LON_SPAN) by (nonlinear_arith)
            requires
                num == n * q + num % n,
                num % n >= 0,
                num < (LON_SPAN + 1) * n,
                n > 0,
        ;
    }
    (q as i64 - LON_HALF) as i32
}

/// The western edge of every column, as `x_lon` gives it, lies in that
/// column again: `lon_x(n, x_lon(n, x)) == x` for every column `x < n` of a
/// grid of at most `2^31` columns (zoom levels up to 31).
pub proof fn lemma_lon_round_trip(n: int, x: int)
    requires
        0 < n <= 2_147_483_648,
        0 <= x < n,
    ensures
        lon_x_spec(n, x_lon_spec(n, x)) == x,
{
    let s = LON_SPAN as int;
    let num = x * s + n - 1;
    let c = num / n;
    lemma_fundamental_div_mod(num, n);
    lemma_mod_pos_bound(num, n);
    let r = num % n;
    assert(x * s <= c * n && c * n < x * s + s) by (nonlinear_arith)
        requires
            num == n * c + r,
            0 <= r < n,
            num == x * s + n - 1,
            n <= 2_147_483_648,
            s == 3_600_000_000,
    ;
    lemma_fundamental_div_mod_converse_div(c * n, s, x, c * n - x * s);
    assert(x_lon_spec(n, x) + LON_HALF == c);
}

} // verus!
