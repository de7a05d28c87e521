use citybike_map::err::Error;
use citybike_map::page::PageData;
use citybike_map::projection::WorldPoint;
use citybike_map::station::{LocDelta, Station, StationData, StationObs};
use citybike_map::tile::Tile;

fn station(count: u16, x: u16, y: u16) -> Station {
    Station { id: "HSL:001".to_string(), name: "Kaivopuisto".to_string(), count, x, y, distance: 120 }
}

fn obs(id: &str, pos: Option<WorldPoint>) -> StationObs {
    StationObs { id: id.to_string(), name: format!("Station {id}"), count: 4, pos, distance: 300 }
}

#[test]
fn count_classes() {
    assert_eq!(station(0, 0, 0).count_class(), "empty");
    assert_eq!(station(1, 0, 0).count_class(), "low");
    assert_eq!(station(2, 0, 0).count_class(), "low");
    assert_eq!(station(3, 0, 0).count_class(), "mid");
    assert_eq!(station(5, 0, 0).count_class(), "mid");
    assert_eq!(station(6, 0, 0).count_class(), "high");
    assert_eq!(station(65535, 0, 0).count_class(), "high");
}

#[test]
fn pin_loc_style() {
    assert_eq!(station(1, 12, 345).pin_loc(), "left: 12px; top: 345px;");
    assert_eq!(station(1, 0, 0).pin_loc(), "left: 0px; top: 0px;");
}

#[test]
fn off_frame_stations_are_dropped() {
    let t = Tile { x: 1, y: 1, z: 30 };
    let data = StationData(vec![
        obs("a", Some(WorldPoint { x: 8, y: 8 })),
        obs("b", Some(WorldPoint { x: 13, y: 8 })),
        obs("c", Some(WorldPoint { x: 12, y: 12 })),
        obs("d", None),
        obs("e", Some(WorldPoint { x: 2, y: 8 })),
        obs("f", Some(WorldPoint { x: 4, y: 4 })),
    ]);
    let out = data.into_stations(&t, 100);
    let ids: Vec<&str> = out.iter().map(|s| s.id.as_str()).collect();
    assert_eq!(ids, vec!["a", "c", "f"]);
    assert_eq!((out[0].x, out[0].y), (50, 50));
    assert_eq!((out[1].x, out[1].y), (100, 100));
    assert_eq!((out[2].x, out[2].y), (0, 0));
    assert_eq!(out[1].name, "Station c");
    assert_eq!(out[1].count, 4);
    assert_eq!(out[1].distance, 300);
}

#[test]
fn no_stations_give_none() {
    let t = Tile { x: 0, y: 0, z: 15 };
    assert!(StationData(vec![]).into_stations(&t, 350).is_empty());
}

#[test]
fn loc_delta_defaults_to_zero() {
    assert_eq!(LocDelta { dx: None, dy: None }.delta(), (0, 0));
    assert_eq!(LocDelta { dx: Some(-3), dy: None }.delta(), (-3, 0));
    assert_eq!(LocDelta { dx: None, dy: Some(2) }.delta(), (0, 2));
}

#[test]
fn search_limits_grow_with_the_shift() {
    assert_eq!(LocDelta { dx: None, dy: None }.search_limits(), (850, 20));
    assert_eq!(LocDelta { dx: Some(-2), dy: Some(1) }.search_limits(), (2550, 40));
    assert_eq!(LocDelta { dx: Some(0), dy: Some(23) }.search_limits(), (20400, 250));
}

#[test]
fn page_window_is_the_finest_that_holds_every_station() {
    let s = 131_072u64;
    let p = WorldPoint { x: 18651 * s + s / 2 + 4096, y: 9487 * s + s / 2 + 4096 };
    let data = StationData(vec![obs("here", Some(p)), obs("unplaced", None)]);
    match PageData::with_data((0, 0), p, data).unwrap() {
        PageData::Data { stations, ref_point, pixels } => {
            assert_eq!(ref_point, Tile { x: (p.x >> 13) as u32, y: (p.y >> 13) as u32, z: 19 });
            assert_eq!(pixels, 350);
            assert_eq!(stations.len(), 1);
            assert_eq!(stations[0].id, "here");
            assert_eq!((stations[0].x, stations[0].y), (88, 88));
        }
        _ => panic!("expected a page with data"),
    }
}

#[test]
fn page_window_is_shifted_by_the_delta() {
    let s = 131_072u64;
    let p = WorldPoint { x: 18651 * s + s / 2 + 4096, y: 9487 * s + s / 2 + 4096 };
    let data = StationData(vec![obs("here", Some(p))]);
    match PageData::with_data((1, -1), p, data).unwrap() {
        PageData::Data { stations, ref_point, .. } => {
            assert_eq!(
                ref_point,
                Tile { x: (p.x >> 13) as u32 + 1, y: (p.y >> 13) as u32 - 1, z: 19 }
            );
            assert!(stations.is_empty());
        }
        _ => panic!("expected a page with data"),
    }
}

#[test]
fn page_with_stations_on_opposite_sides_of_the_globe_fails() {
    let half = 2_147_483_648u64;
    let p = WorldPoint { x: 100, y: half };
    let data = StationData(vec![
        obs("west", Some(WorldPoint { x: 100, y: half })),
        obs("east", Some(WorldPoint { x: half + 100, y: half })),
    ]);
    assert!(matches!(PageData::with_data((0, 0), p, data), Err(Error::NoFittingZoom)));
}

#[test]
fn page_window_follows_the_stations_not_the_location() {
    let half = 2_147_483_648u64;
    let p = WorldPoint { x: 100, y: half };
    let q = WorldPoint { x: half + 8192 * 3 + 4096, y: half + 4096 };
    let data = StationData(vec![obs("a", Some(q)), obs("b", Some(q))]);
    match PageData::with_data((0, 0), p, data).unwrap() {
        PageData::Data { stations, ref_point, .. } => {
            assert_eq!(ref_point, Tile { x: (q.x >> 13) as u32, y: (q.y >> 13) as u32, z: 19 });
            assert_eq!(stations.len(), 2);
            assert_eq!((stations[0].x, stations[0].y), (88, 88));
        }
        _ => panic!("expected a page with data"),
    }
}

#[test]
fn page_without_placeable_stations_centres_on_the_location() {
    let s = 131_072u64;
    let p = WorldPoint { x: 18651 * s + s / 2 + 4096, y: 9487 * s + s / 2 + 4096 };
    let data = StationData(vec![obs("unplaced", None)]);
    match PageData::with_data((0, 1), p, data).unwrap() {
        PageData::Data { stations, ref_point, pixels } => {
            assert_eq!(ref_point, Tile { x: 18651, y: 9488, z: 15 });
            assert_eq!(pixels, 350);
            assert!(stations.is_empty());
        }
        _ => panic!("expected a page with data"),
    }
}
