use citybike_map::projection::WorldPoint;
use citybike_map::tile::{tile_span, Tile};

#[test]
fn add_saturates_at_zero() {
    let t = Tile { x: 0, y: 0, z: 5 };
    assert_eq!(t.add((-5, -5)), Tile { x: 0, y: 0, z: 5 });
}

#[test]
fn add_moves_both_ways() {
    let t = Tile { x: 10, y: 3, z: 15 };
    assert_eq!(t.add((2, -1)), Tile { x: 12, y: 2, z: 15 });
    assert_eq!(t.add((-127, 127)), Tile { x: 0, y: 130, z: 15 });
    assert_eq!(t.add((-10, -3)), Tile { x: 0, y: 0, z: 15 });
}

#[test]
fn span_of_zoom_levels() {
    assert_eq!(tile_span(0), 4_294_967_296);
    assert_eq!(tile_span(15), 131_072);
    assert_eq!(tile_span(32), 1);
}

#[test]
fn ref_point_takes_off_half_a_tile() {
    // zoom 30: a tile is 4 units wide
    let t = Tile::ref_point(30, WorldPoint { x: 6, y: 1 });
    assert_eq!(t, Tile { x: 1, y: 0, z: 30 });
    let t = Tile::ref_point(30, WorldPoint { x: 5, y: 2 });
    assert_eq!(t, Tile { x: 0, y: 0, z: 30 });
    let t = Tile::ref_point(15, WorldPoint { x: 131_072 * 7 + 65_536, y: 131_072 * 3 });
    assert_eq!(t, Tile { x: 7, y: 2, z: 15 });
}

#[test]
fn rel_coord_places_and_rounds() {
    let t = Tile { x: 0, y: 0, z: 30 };
    // half way across the window
    assert_eq!(t.rel_coord(100, WorldPoint { x: 4, y: 4 }), Some((50, 50)));
    // 12.5 pixels rounds up
    assert_eq!(t.rel_coord(100, WorldPoint { x: 1, y: 0 }), Some((13, 0)));
    let t = Tile { x: 5, y: 9, z: 30 };
    assert_eq!(t.rel_coord(350, WorldPoint { x: 20, y: 38 }), Some((0, 88)));
}

#[test]
fn rel_coord_frame_bounds() {
    let t = Tile { x: 1, y: 1, z: 30 };
    // exactly at the far edge: included
    assert_eq!(t.rel_coord(100, WorldPoint { x: 12, y: 12 }), Some((100, 100)));
    // one unit past it on either axis: dropped
    assert_eq!(t.rel_coord(100, WorldPoint { x: 13, y: 12 }), None);
    assert_eq!(t.rel_coord(100, WorldPoint { x: 12, y: 13 }), None);
    // west or north of the window: dropped
    assert_eq!(t.rel_coord(100, WorldPoint { x: 3, y: 8 }), None);
    assert_eq!(t.rel_coord(100, WorldPoint { x: 8, y: 3 }), None);
}

#[test]
fn digitransit_url_format() {
    let t = Tile { x: 18651, y: 9487, z: 15 };
    assert_eq!(
        t.digitransit_url("https://maps.example/styles/v1"),
        "https://maps.example/styles/v1/15/18651/9487.png"
    );
    let t = Tile { x: 0, y: 4_294_967_295, z: 0 };
    assert_eq!(t.digitransit_url(""), "/0/0/4294967295.png");
}

#[test]
fn img_url_format() {
    let t = Tile { x: 18651, y: 9487, z: 15 };
    assert_eq!(t.img_url(0, 0), "/img?z=15&x=18651&y=9487");
    assert_eq!(t.img_url(1, 10), "/img?z=15&x=18652&y=9497");
}

#[test]
fn cache_key_is_x_y_z() {
    let t = Tile { x: 3, y: 4, z: 5 };
    assert_eq!(t.cache_key(), (3, 4, 5));
}
