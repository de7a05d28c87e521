//! Nearby stations and their place on a rendered tile window.

use crate::projection::WorldPoint;
use crate::text::{dec, push_decimal};
use crate::tile::{rel_coord_spec, Tile};
use vstd::prelude::*;

verus! {

/// A station placed on the rendered map, at pixel `(x, y)` of the window.
#[derive(Debug)]
pub struct Station {
    pub id: String,
    pub name: String,
    pub count: u16,
    pub x: u16,
    pub y: u16,
    pub distance: u16,
}

/// A station as the routing service reports it: `pos` is its place on the
/// map, `None` when its coordinates cannot be placed.
#[derive(Debug)]
pub struct StationObs {
    pub id: String,
    pub name: String,
    pub count: u16,
    pub pos: Option<WorldPoint>,
    pub distance: u16,
}

/// The stations near a location, in the order the routing service gave them.
#[derive(Debug)]
pub struct StationData(pub Vec<StationObs>);

/// How far the rendered window is moved from the one centred on the
/// location, in tiles; an absent value is zero.
#[derive(Debug, Clone, Copy, PartialEq, Eq, Structural)]
pub struct LocDelta {
    pub dx: Option<i8>,
    pub dy: Option<i8>,
}

/// Style that places a station's pin at pixel `(x, y)`.
pub open spec fn pin_loc_spec(x: nat, y: nat) -> Seq<char> {
    "left: "@ + dec(x) + "px; top: "@ + dec(y) + "px;"@
}

/// Class of a station by the number of bikes left.
pub open spec fn count_class_spec(count: int) -> Seq<char> {
    if count == 0 {
        "empty"@
    } else if count < 3 {
        "low"@
    } else if count < 6 {
        "mid"@
    } else {
        "high"@
    }
}

/// Where station `o` lands in the window of `px` pixels whose upper-left
/// tile is `t`; `None` for a station that cannot be placed or is off the
/// frame.
pub open spec fn placement(o: StationObs, t: Tile, px: int) -> Option<(int, int)> {
    match o.pos {
        Some(p) => rel_coord_spec(t, px, p),
        None => None,
    }
}

/// The stations of `obs` that land in the window, in their order, each with
/// its pixel position.
pub open spec fn placed(obs: Seq<StationObs>, t: Tile, px: int) -> Seq<Station>
    decreases obs.len(),
{
    if obs.len() == 0 {
        Seq::empty()
    } else {
        let rest = placed(obs.drop_last(), t, px);
        let o = obs.last();
        match placement(o, t, px) {
            Some((x, y)) => rest.push(
                Station {
                    id: o.id,
                    name: o.name,
                    count: o.count,
                    x: x as u16,
                    y: y as u16,
                    distance: o.distance,
                },
            ),
            None => rest,
        }
    }
}

/// Every station position is on the map.
pub open spec fn positions_wf(obs: Seq<StationObs>) -> bool {
    forall|i: int|
        0 <= i < obs.len() ==> ((#[trigger] obs[i]).pos matches Some(p) ==> p.wf())
}

/// The shift of `l` in tiles, with zero for an absent value.
pub open spec fn delta_of(l: LocDelta) -> (i8, i8) {
    (
        match l.dx {
            Some(v) => v,
            None => 0i8,
        },
        match l.dy {
            Some(v) => v,
            None => 0i8,
        },
    )
}

/// The larger of the two shifts in absolute value, plus one.
pub open spec fn reach(d: (i8, i8)) -> int {
    let a = if d.0 < 0 {
        -d.0
    } else {
        d.0 as int
    };
    let b = if d.1 < 0 {
        -d.1
    } else {
        d.1 as int
    };
    if a > b {
        a + 1
    } else {
        b + 1
    }
}

impl Station {
    /// Style that places the station's pin on the tile window.
    pub fn pin_loc(&self) -> (r: String)
        ensures
            r@ == pin_loc_spec(self.x as nat, self.y as nat),
    {
        let mut s = String::from_str("left: ");
        push_decimal(&mut s, self.x as u64);
        s.append("px; top: ");
        push_decimal(&mut s, self.y as u64);
        s.append("px;");
        s
    }

    /// How many bikes are left: "empty", "low" (1 or 2), "mid" (3 to 5) or
    /// "high".
    pub fn count_class(&self) -> (r: &str)
        ensures
            r@ == count_class_spec(self.count as int),
    {
        if self.count == 0 {
            "empty"
        } else if self.count < 3 {
            "low"
        } else if self.count < 6 {
            "mid"
        } else {
            "high"
        }
    }
}

impl LocDelta {
    /// The shift in tiles, with zero for an absent value.
    pub fn delta(&self) -> (r: (i8, i8))
        ensures
            r == delta_of(*self),
    {
        let dx = match self.dx {
            Some(v) => v,
            None => 0,
        };
        let dy = match self.dy {
            Some(v) => v,
            None => 0,
        };
        (dx, dy)
    }

    /// How far (in metres) and for how many stations to ask the routing
    /// service around a location, for a window shifted by `delta()`: with
    /// `m` the larger absolute shift plus one, `850 * m` metres and
    /// `10 * (m + 1)` stations.
    pub fn search_limits(&self) -> (r: (u16, u8))
        requires
            reach(delta_of(*self)) <= 24,
        ensures
            r.0 == 850 * reach(delta_of(*self)),
            r.1 == 10 * (reach(delta_of(*self)) + 1),
    {
        let (dx, dy) = self.delta();
        let a: i16 = if dx < 0 {
            -(dx as i16)
        } else {
            dx as i16
        };
        let b: i16 = if dy < 0 {
            -(dy as i16)
        } else {
            dy as i16
        };
        let m: i16 = if a > b {
            a + 1
        } else {
            b + 1
        };
        ((m as u16) * 850, ((m + 1) as u8) * 10)
    }
}

impl StationData {
    /// The stations that land in the window of `px` pixels whose upper-left
    /// tile is `ref_pt`, in their order, each placed at its pixel position;
    /// the others are left out.
    pub fn into_stations(self, ref_pt: &Tile, px: u16) -> (r: Vec<Station>)
        requires
            ref_pt.z <= 32,
            positions_wf(self.0@),
        ensures
            r@ == placed(self.0@, *ref_pt, px as int),
    {
        let obs = &self.0;
        let mut out: Vec<Station> = Vec::new();
        let mut i: usize = 0;
        while i < obs.len()
            invariant
                i <= obs.len(),
                obs@ == self.0@,
                ref_pt.z <= 32,
                positions_wf(obs@),
                out@ == placed(obs@.subrange(0, i as int), *ref_pt, px as int),
            decreases obs.len() - i,
        {
            let o = &obs[i];
            proof {
                let next = obs@.subrange(0, i + 1);
                assert(next.drop_last() =~= obs@.subrange(0, i as int));
                assert(next.last() == *o);
            }
            match o.pos {
                Some(p) => {
                    proof {
                        assert(obs@[i as int].pos == Some(p));
                    }
                    match ref_pt.rel_coord(px, p) {
                        Some((x, y)) => {
                            out.push(
                                Station {
                                    id: o.id.clone(),
                                    name: o.name.clone(),
                                    count: o.count,
                                    x,
                                    y,
                                    distance: o.distance,
                                },
                            );
                        },
                        None => {},
                    }
                },
                None => {},
            }
            i = i + 1;
        }
        proof {
            assert(obs@.subrange(0, i as int) =~= obs@);
        }
        out
    }
}

} // verus!
