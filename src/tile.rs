//! The tile address `(x, y, z)`: placing a point in a window of tiles,
//! shifting a tile, and the URLs and key that a tile is known by.

use crate::projection::{WorldPoint, WORLD};
use crate::text::{dec, push_decimal};
use vstd::arithmetic::div_mod::*;
use vstd::arithmetic::power2::*;
use vstd::prelude::*;

verus! {

/// Width and height, in tiles, of the window that a page renders.
pub const WINDOW_TILES: u64 = 2;

/// A tile of the Web-Mercator grid: column `x` and row `y` at zoom level `z`.
/// A tile on the map has `x < 2^z` and `y < 2^z`; nothing here clamps them.
#[derive(Debug, Clone, Copy, PartialEq, Eq, Structural)]
pub struct Tile {
    pub x: u32,
    pub y: u32,
    pub z: u8,
}

/// Width of one tile of zoom level `z`, in `WorldPoint` units.
pub open spec fn span(z: nat) -> nat {
    pow2((32 - z) as nat)
}

/// Column (or row) of the tile of zoom level `z` that holds coordinate `w`.
pub open spec fn tile_of(w: int, z: nat) -> int {
    w / span(z) as int
}

/// Index of the upper-left tile of a window centred on coordinate `w`:
/// half a tile is taken off before rounding down, and the result saturates
/// at zero.
pub open spec fn ref_index(w: int, z: nat) -> int {
    let s = span(z) as int;
    if 2 * w < s {
        0
    } else {
        (2 * w - s) / (2 * s)
    }
}

/// Pixel position of coordinate `w` in a window of `WINDOW_TILES` tiles of
/// width `s` that starts at tile index `t` and is rendered `px` pixels wide,
/// rounded to the nearest pixel; `None` when it falls outside `[0, px]`.
pub open spec fn frame_coord(w: int, t: int, s: int, px: int) -> Option<int> {
    let d = (w - t * s) * px;
    if d < 0 || d > WINDOW_TILES * s * px {
        None
    } else {
        Some((d + s) / (WINDOW_TILES * s))
    }
}

/// Where point `p` lands in the window of `px` pixels whose upper-left tile
/// is `t`; `None` when it is off the frame on either axis.
pub open spec fn rel_coord_spec(t: Tile, px: int, p: WorldPoint) -> Option<(int, int)> {
    let s = span(t.z as nat) as int;
    match (frame_coord(p.x as int, t.x as int, s, px), frame_coord(p.y as int, t.y as int, s, px)) {
        (Some(a), Some(b)) => Some((a, b)),
        _ => None,
    }
}

/// Coordinate `c` moved by `d`, held at zero from below.
pub open spec fn shifted(c: int, d: int) -> int {
    if c + d < 0 {
        0
    } else {
        c + d
    }
}

/// URL of the tile's image under an image provider's base URL:
/// `{base}/{z}/{x}/{y}.png`.
pub open spec fn provider_url(t: Tile, base: Seq<char>) -> Seq<char> {
    base + seq!['/'] + dec(t.z as nat) + seq!['/'] + dec(t.x as nat) + seq!['/'] + dec(
        t.y as nat,
    ) + seq!['.', 'p', 'n', 'g']
}

/// Path of this service's image endpoint for the tile at `(x + dx, y + dy)`.
pub open spec fn local_url(t: Tile, dx: nat, dy: nat) -> Seq<char> {
    seq!['/', 'i', 'm', 'g', '?', 'z', '='] + dec(t.z as nat) + seq!['&', 'x', '='] + dec(
        (t.x + dx) as nat,
    ) + seq!['&', 'y', '='] + dec((t.y + dy) as nat)
}

/// The window's far edge belongs to it: a coordinate exactly `WINDOW_TILES`
/// tiles past the window's start lands on pixel `px`, while one beyond that
/// edge, or before the window's start, is off the frame.
pub proof fn lemma_frame_edges(w: int, t: int, s: int, px: int)
    requires
        s > 0,
        px > 0,
    ensures
        w == t * s + WINDOW_TILES * s ==> frame_coord(w, t, s, px) == Some(px),
        w > t * s + WINDOW_TILES * s ==> frame_coord(w, t, s, px) is None,
        w < t * s ==> frame_coord(w, t, s, px) is None,
{
    let d = (w - t * s) * px;
    if w == t * s + WINDOW_TILES * s {
        assert(d == 2 * s * px) by (nonlinear_arith)
            requires
                d == (w - t * s) * px,
                w == t * s + 2 * s,
        ;
        lemma_fundamental_div_mod_converse_div(2 * s * px + s, 2 * s, px, s);
        assert(px * (2 * s) == 2 * s * px) by (nonlinear_arith);
    }
    if w > t * s + WINDOW_TILES * s {
        assert(d > 2 * s * px) by (nonlinear_arith)
            requires
                d == (w - t * s) * px,
                w > t * s + 2 * s,
                px > 0,
        ;
    }
    if w < t * s {
        assert(d < 0) by (nonlinear_arith)
            requires
                d == (w - t * s) * px,
                w < t * s,
                px > 0,
        ;
    }
}

/// Bounds on the width of a tile, and the tiles of a zoom level fill the world.
pub(crate) proof fn lemma_span_bounds(z: nat)
    requires
        z <= 32,
    ensures
        1 <= span(z) <= WORLD,
        span(z) * pow2(z) == WORLD,
        z <= 30 ==> span(z) >= 4,
{
    lemma2_to64();
    lemma_pow2_adds((32 - z) as nat, z);
    lemma_pow2_pos(z);
    lemma_pow2_pos((32 - z) as nat);
    if z > 0 {
        lemma_pow2_strictly_increases((32 - z) as nat, 32);
    }
    if z < 30 {
        lemma_pow2_strictly_increases(2, (32 - z) as nat);
    }
}

/// The width of one tile of zoom level `z`, in `WorldPoint` units.
pub fn tile_span(z: u8) -> (r: u64)
    requires
        z <= 32,
    ensures
        r == span(z as nat),
{
    proof {
        lemma2_to64();
    }
    let e: u8 = 32 - z;
    let mut r: u64 = 1;
    let mut i: u8 = 0;
    while i < e
        invariant
            i <= e,
            e <= 32,
            r == pow2(i as nat),
        decreases e - i,
    {
        proof {
            lemma2_to64();
            lemma_pow2_unfold((i + 1) as nat);
            if i + 1 < 32 {
                lemma_pow2_strictly_increases((i + 1) as nat, 32);
            }
        }
        r = r * 2;
        i = i + 1;
    }
    r
}

fn ref_offset(w: u64, z: u8) -> (r: u32)
    requires
        w <= WORLD,
        z <= 30,
    ensures
        r == ref_index(w as int, z as nat),
        r <= pow2(z as nat),
{
    let s = tile_span(z);
    proof {
        lemma_span_bounds(z as nat);
        lemma2_to64();
        lemma_pow2_strictly_increases(z as nat, 31);
    }
    if 2 * w < s {
        proof {
            lemma_pow2_pos(z as nat);
        }
        0
    } else {
        let q: u64 = (2 * w - s) / (2 * s);
        proof {
            let p = pow2(z as nat) as int;
            let a = (2 * w - s) as int;
            lemma_fundamental_div_mod(a, 2 * s as int);
            lemma_mod_pos_bound(a, 2 * s as int);
            assert(q <= p) by (nonlinear_arith)
                requires
                    a == (2 * s) * q + a % (2 * s),
                    a % (2 * s) >= 0,
                    a <= 2 * WORLD,
                    s * p == WORLD,
                    s > 0,
            ;
        }
        q as u32
    }
}

fn frame_offset(w: u64, t: u32, s: u64, px: u16) -> (r: Option<u16>)
    requires
        w <= WORLD,
        1 <= s <= WORLD,
    ensures
        match r {
            Some(v) => frame_coord(w as int, t as int, s as int, px as int) == Some(v as int),
            None => frame_coord(w as int, t as int, s as int, px as int) is None,
        },
{
    assert(t * s <= 0xffff_ffff * WORLD) by (nonlinear_arith)
        requires
            t <= 0xffff_ffff,
            s <= WORLD,
    ;
    let origin: u64 = t as u64 * s;
    if w < origin {
        if px == 0 {
            proof {
                assert((w - t * s) * 0 == 0);
                lemma_fundamental_div_mod_converse_div(s as int, 2 * s as int, 0, s as int);
            }
            return Some(0);
        }
        assert((w - t * s) * px < 0) by (nonlinear_arith)
            requires
                w < t * s,
                px > 0,
        ;
        return None;
    }
    let dd: u64 = w - origin;
    assert(dd * px <= WORLD * 0xffff) by (nonlinear_arith)
        requires
            dd <= WORLD,
            px <= 0xffff,
    ;
    assert(2 * s * px <= 2 * WORLD * 0xffff) by (nonlinear_arith)
        requires
            s <= WORLD,
            px <= 0xffff,
    ;
    let d: u64 = dd * px as u64;
    let lim: u64 = 2 * s * px as u64;
    if d > lim {
        None
    } else {
        let q: u64 = (d + s) / (2 * s);
        proof {
            let a = (d + s) as int;
            lemma_fundamental_div_mod(a, 2 * s as int);
            lemma_mod_pos_bound(a, 2 * s as int);
            assert(q <= px) by (nonlinear_arith)
                requires
                    a == (2 * s) * q + a % (2 * s),
                    a % (2 * s) >= 0,
                    a == d + s,
                    d <= 2 * s * px,
                    s > 0,
            ;
        }
        Some(q as u16)
    }
}

impl Tile {
    /// Upper-left tile of a window of zoom level `z` centred on `p`: the
    /// point's tile coordinates less half a tile, rounded down, and held at
    /// zero.
    pub fn ref_point(z: u8, p: WorldPoint) -> (r: Tile)
        requires
            z <= 30,
            p.wf(),
        ensures
            r.z == z,
            r.x == ref_index(p.x as int, z as nat),
            r.y == ref_index(p.y as int, z as nat),
            r.x <= pow2(z as nat) && r.y <= pow2(z as nat),
    {
        let x = ref_offset(p.x, z);
        let y = ref_offset(p.y, z);
        Tile { x, y, z }
    }

    /// Pixel position of `p` in the window of `WINDOW_TILES` by
    /// `WINDOW_TILES` tiles whose upper-left tile is `self`, rendered `px`
    /// pixels wide and high. `None` when the point falls outside `[0, px]` on
    /// either axis.
    pub fn rel_coord(&self, px: u16, p: WorldPoint) -> (r: Option<(u16, u16)>)
        requires
            self.z <= 32,
            p.wf(),
        ensures
            match r {
                Some((a, b)) => rel_coord_spec(*self, px as int, p) == Some((a as int, b as int)),
                None => rel_coord_spec(*self, px as int, p) is None,
            },
    {
        let s = tile_span(self.z);
        proof {
            lemma_span_bounds(self.z as nat);
        }
        let fx = frame_offset(p.x, self.x, s, px);
        let fy = frame_offset(p.y, self.y, s, px);
        match (fx, fy) {
            (Some(a), Some(b)) => Some((a, b)),
            _ => None,
        }
    }

    /// The tile moved by `dx` columns and `dy` rows; a coordinate that would
    /// go below zero stays at zero.
    pub fn add(self, d: (i8, i8)) -> (r: Tile)
        requires
            self.x + d.0 <= u32::MAX,
            self.y + d.1 <= u32::MAX,
        ensures
            r.x == shifted(self.x as int, d.0 as int),
            r.y == shifted(self.y as int, d.1 as int),
            r.z == self.z,
    {
        let x: i64 = self.x as i64 + d.0 as i64;
        let y: i64 = self.y as i64 + d.1 as i64;
        Tile {
            x: if x < 0 {
                0
            } else {
                x as u32
            },
            y: if y < 0 {
                0
            } else {
                y as u32
            },
            z: self.z,
        }
    }

    /// URL of this tile's image at the image provider whose base URL is
    /// `img_url`.
    pub fn digitransit_url(&self, img_url: &str) -> (r: String)
        ensures
            r@ == provider_url(*self, img_url@),
    {
        proof {
            reveal_strlit("/");
            reveal_strlit(".png");
        }
        let mut s = String::from_str(img_url);
        s.append("/");
        push_decimal(&mut s, self.z as u64);
        s.append("/");
        push_decimal(&mut s, self.x as u64);
        s.append("/");
        push_decimal(&mut s, self.y as u64);
        s.append(".png");
        proof {
            assert(s@ =~= provider_url(*self, img_url@));
        }
        s
    }

    /// Path of this service's image endpoint for the tile `dx` columns right
    /// of and `dy` rows below this one.
    pub fn img_url(&self, dx: u32, dy: u32) -> (r: String)
        requires
            self.x + dx <= u32::MAX,
            self.y + dy <= u32::MAX,
        ensures
            r@ == local_url(*self, dx as nat, dy as nat),
    {
        proof {
            reveal_strlit("/img?z=");
            reveal_strlit("&x=");
            reveal_strlit("&y=");
        }
        let mut s = String::from_str("/img?z=");
        push_decimal(&mut s, self.z as u64);
        s.append("&x=");
        push_decimal(&mut s, (self.x + dx) as u64);
        s.append("&y=");
        push_decimal(&mut s, (self.y + dy) as u64);
        proof {
            assert(s@ =~= local_url(*self, dx as nat, dy as nat));
        }
        s
    }

    /// The key under which the tile's image is stored: `(x, y, z)`.
    pub fn cache_key(&self) -> (r: (u32, u32, u8))
        ensures
            r == (self.x, self.y, self.z),
    {
        (self.x, self.y, self.z)
    }
}

} // verus!
