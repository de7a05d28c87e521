use citybike_map::projection::{lon_x, x_lon, WORLD};

#[test]
fn lon_x_is_inv_of_x_lon() {
    let n = 2u64.pow(15);
    let x = 18651;
    let lon = x_lon(n, x);
    let x2 = lon_x(n, lon);
    assert!(x2 as u32 == x);
}

#[test]
fn lon_round_trip_every_column_at_zoom_15() {
    let n = 2u64.pow(15);
    for x in 0..n as u32 {
        assert_eq!(lon_x(n, x_lon(n, x)), x as u64);
    }
}

#[test]
fn lon_round_trip_edges_of_deep_zooms() {
    for z in [0u32, 1, 10, 19, 30, 31] {
        let n = 2u64.pow(z);
        for x in [0u32, 1, (n / 2) as u32, (n - 1) as u32] {
            if (x as u64) < n {
                assert_eq!(lon_x(n, x_lon(n, x)), x as u64);
            }
        }
    }
}

#[test]
fn lon_x_known_values() {
    assert_eq!(lon_x(1, -1_800_000_000), 0);
    assert_eq!(lon_x(1, 1_800_000_000), 1);
    assert_eq!(lon_x(4, 0), 2);
    assert_eq!(lon_x(4, -1), 1);
    assert_eq!(lon_x(WORLD, 1_800_000_000), WORLD);
    // 24.94 degrees east at zoom 15: (204.94 / 360) * 32768 = 18654.17...
    assert_eq!(lon_x(32768, 249_400_000), 18654);
}

#[test]
fn x_lon_known_values() {
    assert_eq!(x_lon(1, 0), -1_800_000_000);
    assert_eq!(x_lon(1, 1), 1_800_000_000);
    assert_eq!(x_lon(2, 1), 0);
    // 360 / 3 degrees does not come out whole: rounded up
    assert_eq!(x_lon(3, 1), -600_000_000);
    assert_eq!(x_lon(7, 1), -1_285_714_285);
}
