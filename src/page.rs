//! What a page shows.

use crate::err::Error;
use crate::projection::WorldPoint;
use crate::solver::{
    bounding_tile, bounding_tile_spec, lemma_bounding_window_holds, window_holds, MAX_ZOOM,
};
use crate::station::{placed, placement, positions_wf, Station, StationData, StationObs};
use crate::tile::{frame_coord, ref_index, shifted, span, Tile, WINDOW_TILES};
use vstd::arithmetic::div_mod::*;
use vstd::arithmetic::power2::*;
use vstd::prelude::*;

verus! {

/// Width and height, in pixels, of the rendered tile window.
pub const PAGE_PIXELS: u16 = 350;

/// The three kinds of page: the one that asks the browser for its location,
/// the landing page, and the map of stations near a known location.
#[derive(Debug)]
pub enum PageData {
    GetCurrent,
    NoData,
    Data { stations: Vec<Station>, ref_point: Tile, pixels: u16 },
}

/// Zoom level of the window around the location, for a page without a
/// station that can be placed.
pub const PAGE_ZOOM: u8 = 15;

/// The points that a page's map must show: every station of `obs` that can
/// be placed, in their order.
pub open spec fn station_points(obs: Seq<StationObs>) -> Seq<WorldPoint>
    decreases obs.len(),
{
    if obs.len() == 0 {
        Seq::empty()
    } else {
        let rest = station_points(obs.drop_last());
        match obs.last().pos {
            Some(q) => rest.push(q),
            None => rest,
        }
    }
}

/// Tile `t` moved by `d`, held at zero from below.
pub open spec fn shifted_tile(t: Tile, d: (i8, i8)) -> Tile {
    Tile {
        x: shifted(t.x as int, d.0 as int) as u32,
        y: shifted(t.y as int, d.1 as int) as u32,
        z: t.z,
    }
}

/// The window around location `p` at `PAGE_ZOOM`, as `Tile::ref_point`
/// gives it.
pub open spec fn location_window(p: WorldPoint) -> Tile {
    Tile {
        x: ref_index(p.x as int, PAGE_ZOOM as nat) as u32,
        y: ref_index(p.y as int, PAGE_ZOOM as nat) as u32,
        z: PAGE_ZOOM,
    }
}

/// The unshifted window of a page: the one that `bounding_tile` finds for
/// the stations that can be placed, or, when there is none, the window
/// around the location `p`.
pub open spec fn page_window(p: WorldPoint, obs: Seq<StationObs>) -> Result<Tile, Error> {
    if station_points(obs).len() == 0 {
        Ok(location_window(p))
    } else {
        bounding_tile_spec(station_points(obs))
    }
}

proof fn lemma_station_points_wf(obs: Seq<StationObs>)
    requires
        positions_wf(obs),
    ensures
        forall|i: int|
            0 <= i < station_points(obs).len() ==> (#[trigger] station_points(obs)[i]).wf(),
    decreases obs.len(),
{
    if obs.len() > 0 {
        let prefix = obs.drop_last();
        assert forall|i: int| 0 <= i < prefix.len() implies ((#[trigger] prefix[i]).pos matches Some(
            q,
        ) ==> q.wf()) by {
            assert(prefix[i] == obs[i]);
        }
        lemma_station_points_wf(prefix);
        assert(obs.last() == obs[obs.len() - 1]);
        let all = station_points(obs);
        let part = station_points(prefix);
        assert forall|i: int| 0 <= i < all.len() implies (#[trigger] all[i]).wf() by {
            if i < part.len() {
                assert(all[i] == part[i]);
            }
        }
    }
}

proof fn lemma_in_window_on_frame(w: int, t: int, s: int, px: int)
    requires
        w >= 0,
        s > 0,
        px >= 0,
        t <= w / s < t + WINDOW_TILES,
    ensures
        frame_coord(w, t, s, px) is Some,
{
    lemma_fundamental_div_mod(w, s);
    lemma_mod_pos_bound(w, s);
    let q = w / s;
    assert(0 <= (w - t * s) * px <= WINDOW_TILES * s * px) by (nonlinear_arith)
        requires
            w == s * q + w % s,
            0 <= w % s < s,
            t <= q < t + 2,
            px >= 0,
            s > 0,
    ;
}

proof fn lemma_placed_all(obs: Seq<StationObs>, t: Tile, px: int)
    requires
        positions_wf(obs),
        t.z <= 32,
        px >= 0,
        window_holds(t, station_points(obs)),
    ensures
        placed(obs, t, px).len() == station_points(obs).len(),
    decreases obs.len(),
{
    if obs.len() > 0 {
        let prefix = obs.drop_last();
        let all = station_points(obs);
        let part = station_points(prefix);
        assert forall|i: int| 0 <= i < prefix.len() implies ((#[trigger] prefix[i]).pos matches Some(
            q,
        ) ==> q.wf()) by {
            assert(prefix[i] == obs[i]);
        }
        assert forall|i: int| 0 <= i < part.len() implies #[trigger] all[i] == part[i] by {}
        assert(window_holds(t, part)) by {
            assert forall|i: int| 0 <= i < part.len() implies {
                &&& t.x <= #[trigger] crate::tile::tile_of(part[i].x as int, t.z as nat) < t.x
                    + WINDOW_TILES
                &&& t.y <= crate::tile::tile_of(part[i].y as int, t.z as nat) < t.y
                    + WINDOW_TILES
            } by {
                assert(all[i] == part[i]);
            }
        }
        lemma_placed_all(prefix, t, px);
        if let Some(q) = obs.last().pos {
            let k = all.len() - 1;
            assert(all[k] == q);
            assert(obs.last() == obs[obs.len() - 1]);
            lemma_pow2_pos((32 - t.z) as nat);
            let s = span(t.z as nat) as int;
            assert(crate::tile::tile_of(all[k].x as int, t.z as nat) < t.x + WINDOW_TILES);
            lemma_in_window_on_frame(q.x as int, t.x as int, s, px);
            lemma_in_window_on_frame(q.y as int, t.y as int, s, px);
            assert(placement(obs.last(), t, px) is Some);
        }
    }
}

/// A page whose window is not shifted drops no station that can be placed:
/// the window found for the stations holds every one of them.
pub proof fn lemma_unshifted_page_keeps_every_station(obs: Seq<StationObs>)
    requires
        positions_wf(obs),
        station_points(obs).len() > 0,
    ensures
        bounding_tile_spec(station_points(obs)) matches Ok(t) ==> placed(
            obs,
            shifted_tile(t, (0i8, 0i8)),
            PAGE_PIXELS as int,
        ).len() == station_points(obs).len(),
{
    lemma_station_points_wf(obs);
    lemma_bounding_window_holds(station_points(obs));
    if let Ok(t) = bounding_tile_spec(station_points(obs)) {
        assert(shifted_tile(t, (0i8, 0i8)) == t);
        lemma_placed_all(obs, t, PAGE_PIXELS as int);
    }
}

impl PageData {
    /// The map page for location `p` and the stations of `station_data`.
    /// The window is the one that `bounding_tile` finds for the stations
    /// that can be placed, or the window around `p` at `PAGE_ZOOM` when there
    /// is none, shifted by `d` tiles; the page holds the stations that land
    /// in it, each at its pixel position. `Error::NoFittingZoom` when no zoom
    /// level fits the stations.
    pub fn with_data(d: (i8, i8), p: WorldPoint, station_data: StationData) -> (r: Result<
        Self,
        Error,
    >)
        requires
            p.wf(),
            positions_wf(station_data.0@),
        ensures
            match page_window(p, station_data.0@) {
                Ok(t) => r matches Ok(PageData::Data { stations, ref_point, pixels }) && ref_point
                    == shifted_tile(t, d) && pixels == PAGE_PIXELS && stations@ == placed(
                    station_data.0@,
                    ref_point,
                    PAGE_PIXELS as int,
                ),
                Err(_) => r matches Err(Error::NoFittingZoom),
            },
    {
        let obs = &station_data.0;
        let mut points: Vec<WorldPoint> = Vec::new();
        let mut i: usize = 0;
        proof {
            assert(points@ =~= station_points(obs@.subrange(0, 0)));
        }
        while i < obs.len()
            invariant
                i <= obs.len(),
                obs@ == station_data.0@,
                points@ == station_points(obs@.subrange(0, i as int)),
            decreases obs.len() - i,
        {
            proof {
                let next = obs@.subrange(0, i + 1);
                assert(next.drop_last() =~= obs@.subrange(0, i as int));
                assert(next.last() == obs@[i as int]);
            }
            match obs[i].pos {
                Some(q) => points.push(q),
                None => {},
            }
            i = i + 1;
        }
        proof {
            assert(obs@.subrange(0, i as int) =~= obs@);
            lemma_station_points_wf(obs@);
            lemma2_to64();
        }
        let window = if points.len() == 0 {
            Tile::ref_point(PAGE_ZOOM, p)
        } else {
            match bounding_tile(&points) {
                Ok(t) => {
                    proof {
                        if t.z < MAX_ZOOM {
                            lemma_pow2_strictly_increases(t.z as nat, MAX_ZOOM as nat);
                        }
                    }
                    t
                },
                Err(_) => {
                    return Err(Error::NoFittingZoom);
                },
            }
        };
        proof {
            lemma_pow2_strictly_increases(PAGE_ZOOM as nat, MAX_ZOOM as nat);
        }
        let ref_point = window.add(d);
        let pixels = PAGE_PIXELS;
        let stations = station_data.into_stations(&ref_point, pixels);
        Ok(PageData::Data { stations, ref_point, pixels })
    }
}

} // verus!
