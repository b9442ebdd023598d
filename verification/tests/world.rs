use tilemap::tile::{get_tile_value_abs, new_tile_map, set_tile_value, TileMap, TileMapPosition};
use tilemap::world::{
    digital_move_velocity, generate_world, move_player, random_door_choice, update_camera,
    GameButtonState,
};

fn pos(x: u32, y: u32, z: u32, ox: i32, oy: i32) -> TileMapPosition {
    TileMapPosition {
        abs_tile_x: x,
        abs_tile_y: y,
        abs_tile_z: z,
        offset_x: ox,
        offset_y: oy,
    }
}

fn button(down: bool) -> GameButtonState {
    GameButtonState {
        half_transition_count: 0,
        ended_down: down,
    }
}

/// A small map whose tiles 1..=6 on both axes of floor 0 are open, with a
/// wall at (4,3) and stairs up at (3,3).
fn room() -> TileMap {
    let mut map = new_tile_map(4, 140, 4, 4, 2);
    for x in 1..=6u32 {
        for y in 1..=6u32 {
            set_tile_value(&mut map, x, y, 0, 1);
        }
    }
    set_tile_value(&mut map, 4, 3, 0, 2);
    set_tile_value(&mut map, 3, 3, 0, 3);
    map
}

#[test]
fn digital_velocity_directions() {
    let up = button(true);
    let no = button(false);
    assert_eq!(digital_move_velocity(&up, &no, &no, &no, &no, 1000, 200), (0, 200));
    assert_eq!(digital_move_velocity(&no, &up, &no, &no, &no, 1000, 200), (0, -200));
    assert_eq!(digital_move_velocity(&no, &no, &up, &no, &no, 1000, 200), (-200, 0));
    assert_eq!(digital_move_velocity(&no, &no, &no, &up, &no, 1000, 200), (200, 0));
    // The speed modifier selects the fast speed; up wins over down, left
    // over right.
    assert_eq!(digital_move_velocity(&up, &up, &up, &up, &up, 1000, 200), (-1000, 1000));
    assert_eq!(digital_move_velocity(&no, &no, &no, &no, &up, 1000, 200), (0, 0));
}

#[test]
fn move_player_commits_into_open_floor() {
    let map = room();
    let player = pos(2, 2, 0, 0, 0);
    let (p, moved) = move_player(&map, &player, 140, 0, 50);
    assert!(moved);
    assert_eq!(p, pos(3, 2, 0, 0, 0));
}

#[test]
fn move_player_blocked_by_wall() {
    let map = room();
    let player = pos(4, 2, 0, 0, 0);
    // One tile up sits the wall at (4,3).
    let (p, moved) = move_player(&map, &player, 0, 140, 50);
    assert!(!moved);
    assert_eq!(p, player);
}

#[test]
fn move_player_blocked_by_side_extent() {
    let map = room();
    // The first write materialized the whole first chunk (tiles 0..16) as
    // floor; tile (16,3) lies in a chunk never written.
    let player = pos(14, 3, 0, 0, 0);
    // The candidate tile (15,3) is open, but the right extent reaches into
    // the never-generated tile (16,3).
    let (p, moved) = move_player(&map, &player, 140, 0, 80);
    assert!(!moved);
    assert_eq!(p, player);
}

#[test]
fn move_player_stairs_change_floor_on_entry() {
    let map = room();
    let player = pos(2, 3, 0, 0, 0);
    let (p, moved) = move_player(&map, &player, 140, 0, 50);
    assert!(moved);
    assert_eq!(p, pos(3, 3, 1, 0, 0));
}

#[test]
fn move_player_same_tile_does_not_trigger_stairs() {
    let map = room();
    let player = pos(3, 3, 0, 10, 0);
    let (p, moved) = move_player(&map, &player, 5, 0, 50);
    assert!(moved);
    assert_eq!(p, pos(3, 3, 0, 15, 0));
}

#[test]
fn camera_follows_floor_and_scrolls_by_screens() {
    let map = new_tile_map(4, 140, 64, 64, 2);
    let camera = pos(8, 4, 0, 0, 0);
    // Player a full screen to the right, one floor up.
    let player = pos(20, 4, 1, 0, 0);
    let c = update_camera(&map, &camera, &player);
    assert_eq!(c, pos(25, 4, 1, 0, 0));

    // Player far to the left and below.
    let camera = pos(40, 40, 1, 0, 0);
    let player = pos(20, 20, 0, 0, 0);
    let c = update_camera(&map, &camera, &player);
    assert_eq!(c, pos(23, 31, 0, 0, 0));

    // Player nearby: the camera stays.
    let camera = pos(8, 4, 0, 0, 0);
    let player = pos(9, 5, 0, 0, 0);
    let c = update_camera(&map, &camera, &player);
    assert_eq!(c, pos(8, 4, 0, 0, 0));
}

#[test]
fn door_choice_respects_bounds() {
    for _ in 0..100 {
        assert!(random_door_choice(true) < 3);
        assert!(random_door_choice(false) < 2);
    }
}

#[test]
fn generated_world_has_walled_origin() {
    let mut map = new_tile_map(4, 140, 128, 128, 2);
    generate_world(&mut map, 100);
    // The origin corner of the first screen is a wall whatever was drawn.
    assert_eq!(get_tile_value_abs(&map, 0, 0, 0), 2);
    // The interior of the first screen is open floor.
    assert_eq!(get_tile_value_abs(&map, 1, 1, 0), 1);
    // The right border of the first screen away from the door is a wall.
    assert_eq!(get_tile_value_abs(&map, 16, 0, 0), 2);
}
