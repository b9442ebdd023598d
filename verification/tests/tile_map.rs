use tilemap::tile::{
    are_on_same_tile, get_chunk_position_for, get_tile_value, get_tile_value_abs,
    is_tile_map_point_empty, new_tile_map, recanonicalize_position, set_tile_value, subtract,
    TileMapPosition,
};

fn pos(x: u32, y: u32, z: u32, ox: i32, oy: i32) -> TileMapPosition {
    TileMapPosition {
        abs_tile_x: x,
        abs_tile_y: y,
        abs_tile_z: z,
        offset_x: ox,
        offset_y: oy,
    }
}

#[test]
fn chunk_address_round_trip() {
    let map = new_tile_map(4, 140, 64, 64, 2);
    for &abs in [0u32, 1, 15, 16, 17, 255, 1000, 65535, u32::MAX].iter() {
        let p = get_chunk_position_for(&map, abs, abs, 0);
        assert_eq!((p.tile_chunk_x << map.chunk_shift) | p.rel_tile_x, abs);
        assert_eq!((p.tile_chunk_y << map.chunk_shift) | p.rel_tile_y, abs);
        assert!(p.rel_tile_x < map.chunk_dim);
    }
    let p = get_chunk_position_for(&map, 20, 5, 1);
    assert_eq!(p.tile_chunk_x, 1);
    assert_eq!(p.rel_tile_x, 4);
    assert_eq!(p.tile_chunk_y, 0);
    assert_eq!(p.rel_tile_y, 5);
    assert_eq!(p.tile_chunk_z, 1);
}

#[test]
fn example_scenario() {
    // chunk_dim = 16, tile side 1.4 in hundredths of a meter.
    let mut map = new_tile_map(4, 140, 8, 8, 2);
    set_tile_value(&mut map, 20, 5, 0, 2);
    assert_eq!(get_tile_value_abs(&map, 20, 5, 0), 2);
    // Same chunk, untouched: default open.
    assert_eq!(get_tile_value_abs(&map, 21, 5, 0), 1);
    assert!(!is_tile_map_point_empty(&map, &pos(20, 5, 0, 0, 0)));
    assert!(is_tile_map_point_empty(&map, &pos(21, 5, 0, 0, 0)));

    // Moving a position: offset 1.3, add 0.2 -> 1.5; canonicalizing rolls
    // one tile and leaves 1.5 - 1.4 = 0.1.
    let mut p = pos(20, 5, 0, 130, 0);
    p.offset_x += 20;
    let p = recanonicalize_position(&map, p);
    assert_eq!(p.abs_tile_x, 21);
    assert_eq!(p.offset_x, 10);
}

#[test]
fn lazy_chunk_fill() {
    let mut map = new_tile_map(4, 140, 4, 4, 1);
    // Before any write, every tile of the chunk reads the sentinel.
    for x in 0..16 {
        for y in 0..16 {
            assert_eq!(get_tile_value_abs(&map, x, y, 0), 0);
        }
    }
    // One write materializes the whole chunk as open floor.
    set_tile_value(&mut map, 3, 2, 0, 2);
    for x in 0..16 {
        for y in 0..16 {
            let expected = if x == 3 && y == 2 { 2 } else { 1 };
            assert_eq!(get_tile_value_abs(&map, x, y, 0), expected);
        }
    }
    // A different chunk is still untouched.
    assert_eq!(get_tile_value_abs(&map, 16, 0, 0), 0);
}

#[test]
fn world_edge_reads_sentinel() {
    let map = new_tile_map(4, 140, 4, 4, 1);
    // Beyond the declared chunk grid: "nothing here", not an error.
    assert_eq!(get_tile_value_abs(&map, 64, 0, 0), 0);
    assert_eq!(get_tile_value_abs(&map, 0, 64, 0), 0);
    assert_eq!(get_tile_value_abs(&map, 0, 0, 1), 0);
    assert_eq!(get_tile_value_abs(&map, u32::MAX, u32::MAX, u32::MAX), 0);
    assert!(!is_tile_map_point_empty(&map, &pos(64, 0, 0, 0, 0)));
}

#[test]
fn walkable_codes() {
    let mut map = new_tile_map(4, 140, 4, 4, 1);
    set_tile_value(&mut map, 1, 1, 0, 1);
    set_tile_value(&mut map, 2, 1, 0, 2);
    set_tile_value(&mut map, 3, 1, 0, 3);
    set_tile_value(&mut map, 4, 1, 0, 4);
    assert!(is_tile_map_point_empty(&map, &pos(1, 1, 0, 0, 0)));
    assert!(!is_tile_map_point_empty(&map, &pos(2, 1, 0, 0, 0)));
    assert!(is_tile_map_point_empty(&map, &pos(3, 1, 0, 0, 0)));
    assert!(is_tile_map_point_empty(&map, &pos(4, 1, 0, 0, 0)));
}

#[test]
fn canonicalization_idempotent() {
    let map = new_tile_map(4, 140, 64, 64, 2);
    let samples = [
        pos(10, 10, 0, 150, -150),
        pos(0, 0, 0, -150, 130),
        pos(5, 5, 1, 70, -70),
        pos(7, 7, 0, 0, 0),
        pos(3, 9, 0, 1000, -1000),
    ];
    for &p in samples.iter() {
        let once = recanonicalize_position(&map, p);
        let twice = recanonicalize_position(&map, once);
        assert_eq!(once, twice);
    }
}

#[test]
fn canonicalization_conserves_metric() {
    let map = new_tile_map(4, 140, 64, 64, 2);
    let side = map.tile_side_in_units as i64;
    let samples = [
        pos(10, 10, 0, 150, -150),
        pos(5, 5, 1, 70, -70),
        pos(3, 9, 0, 999, -1001),
    ];
    for &p in samples.iter() {
        let q = recanonicalize_position(&map, p);
        let before_x = side * p.abs_tile_x as i64 + p.offset_x as i64;
        let after_x = side * q.abs_tile_x as i64 + q.offset_x as i64;
        assert_eq!(before_x, after_x);
        let before_y = side * p.abs_tile_y as i64 + p.offset_y as i64;
        let after_y = side * q.abs_tile_y as i64 + q.offset_y as i64;
        assert_eq!(before_y, after_y);
    }
}

#[test]
fn canonicalization_boundary_rolls_up() {
    let map = new_tile_map(4, 140, 64, 64, 2);
    // Exactly half a tile above the reference point rolls to the next tile.
    let p = recanonicalize_position(&map, pos(5, 5, 0, 70, 0));
    assert_eq!(p.abs_tile_x, 6);
    assert_eq!(p.offset_x, -70);
    // Half a tile below stays.
    let q = recanonicalize_position(&map, pos(5, 5, 0, -70, 0));
    assert_eq!(q.abs_tile_x, 5);
    assert_eq!(q.offset_x, -70);
}

#[test]
fn canonicalization_wraps_toroidally() {
    let map = new_tile_map(4, 140, 64, 64, 2);
    let p = recanonicalize_position(&map, pos(0, 0, 0, -150, 0));
    assert_eq!(p.abs_tile_x, u32::MAX);
    assert_eq!(p.offset_x, -10);
    let q = recanonicalize_position(&map, pos(u32::MAX, 0, 0, 150, 0));
    assert_eq!(q.abs_tile_x, 0);
    assert_eq!(q.offset_x, 10);
}

#[test]
fn subtract_exact_values() {
    let map = new_tile_map(4, 140, 64, 64, 2);
    let a = pos(3, 10, 1, 10, -20);
    let b = pos(1, 12, 0, -20, 30);
    let d = subtract(&map, &a, &b);
    assert_eq!(d.dx, 140 * 2 + 30);
    assert_eq!(d.dy, 140 * -2 + -50);
    assert_eq!(d.dz, 140);
}

#[test]
fn subtract_symmetry() {
    let map = new_tile_map(4, 140, 64, 64, 2);
    let a = pos(3, 10, 1, 10, -20);
    let b = pos(100, 2, 0, -60, 60);
    let ab = subtract(&map, &a, &b);
    let ba = subtract(&map, &b, &a);
    assert_eq!(ab.dx, -ba.dx);
    assert_eq!(ab.dy, -ba.dy);
    assert_eq!(ab.dz, -ba.dz);
    let aa = subtract(&map, &a, &a);
    assert_eq!(aa.dx, 0);
    assert_eq!(aa.dy, 0);
    assert_eq!(aa.dz, 0);
}

#[test]
fn same_tile_ignores_offsets() {
    let a = pos(3, 10, 1, 10, -20);
    let b = pos(3, 10, 1, -60, 60);
    let c = pos(3, 10, 0, 10, -20);
    assert!(are_on_same_tile(&a, &b));
    assert!(!are_on_same_tile(&a, &c));
}

#[test]
fn get_tile_value_uses_tile_coordinates() {
    let mut map = new_tile_map(4, 140, 4, 4, 1);
    set_tile_value(&mut map, 5, 6, 0, 3);
    assert_eq!(get_tile_value(&map, &pos(5, 6, 0, 55, -55)), 3);
}
