//! The per-frame decisions of the game update around the tile map: digital
//! movement tuning, committing a candidate player position against the
//! walkable set, scrolling the camera a screen at a time, and carving a
//! random sequence of connected screens into a fresh map.
//!
//! Displacements arrive as integer world units; turning buttons and elapsed
//! time into a displacement is the caller's concern.

use vstd::prelude::*;

verus! {

use crate::tile::{
    TILE_FLOOR,
    TILE_STAIRS_DOWN,
    TILE_STAIRS_UP,
    TILE_WALL,
    TileMap,
    TileMapPosition,
    get_tile_value,
    is_tile_map_point_empty,
    is_walkable,
    lemma_chunk_coord_bound,
    lemma_unfilled_chunk_reads_unknown,
    lemma_wrap_small_add,
    lemma_wrap_small_sub,
    recanonicalize_position,
    set_tile_value,
    spec_diff_axis,
    subtract,
    wrap_tile,
};

/// Tiles a generated screen spans horizontally.
pub const TILES_PER_SCREEN_X: u32 = 17;

/// Tiles a generated screen spans vertically.
pub const TILES_PER_SCREEN_Y: u32 = 9;

/// One digital button of an input snapshot.
#[derive(Clone, Copy, PartialEq, Eq, Structural, Debug, Default)]
pub struct GameButtonState {
    /// Press/release edges seen since the last frame.
    pub half_transition_count: i32,
    /// Whether the button ended the frame held down.
    pub ended_down: bool,
}

/// Digital movement tuning: a velocity in world units per second from the
/// held movement buttons, up winning over down and left over right on each
/// axis, scaled by the fast speed while the speed modifier is held and the
/// slow speed otherwise.
pub fn digital_move_velocity(
    move_up: &GameButtonState,
    move_down: &GameButtonState,
    move_left: &GameButtonState,
    move_right: &GameButtonState,
    action_up: &GameButtonState,
    fast_speed: i32,
    slow_speed: i32,
) -> (v: (i32, i32))
    requires
        0 <= fast_speed,
        0 <= slow_speed,
    ensures
        ({
            let speed = if action_up.ended_down {
                fast_speed as int
            } else {
                slow_speed as int
            };
            &&& v.0 == (if move_left.ended_down {
                -speed
            } else if move_right.ended_down {
                speed
            } else {
                0int
            })
            &&& v.1 == (if move_up.ended_down {
                speed
            } else if move_down.ended_down {
                -speed
            } else {
                0int
            })
        }),
{
    let speed: i32 = if action_up.ended_down {
        fast_speed
    } else {
        slow_speed
    };
    let vx: i32 = if move_left.ended_down {
        -speed
    } else if move_right.ended_down {
        speed
    } else {
        0
    };
    let vy: i32 = if move_up.ended_down {
        speed
    } else if move_down.ended_down {
        -speed
    } else {
        0
    };
    (vx, vy)
}

/// Moves the player by a displacement in world units, committing the
/// candidate position only if the candidate tile and the player's left and
/// right extents are all walkable. Entering a different tile that holds
/// stairs also moves one floor up or down (the floor index wrapping at the
/// `u32` range). Returns the position after the move and whether the
/// candidate was committed.
pub fn move_player(
    tile_map: &TileMap,
    player: &TileMapPosition,
    d_offset_x: i32,
    d_offset_y: i32,
    half_width: i32,
) -> (r: (TileMapPosition, bool))
    requires
        tile_map.wf(),
        i32::MIN <= player.offset_x + d_offset_x <= i32::MAX,
        i32::MIN <= player.offset_y + d_offset_y <= i32::MAX,
        0 <= half_width <= 0x3fff_ffff,
    ensures
        ({
            let moved = (TileMapPosition {
                abs_tile_x: player.abs_tile_x,
                abs_tile_y: player.abs_tile_y,
                abs_tile_z: player.abs_tile_z,
                offset_x: (player.offset_x + d_offset_x) as i32,
                offset_y: (player.offset_y + d_offset_y) as i32,
            });
            let cand = tile_map.spec_canonical_position(moved);
            let left = tile_map.spec_canonical_position(
                (TileMapPosition { offset_x: (cand.offset_x - half_width) as i32, ..cand }),
            );
            let right = tile_map.spec_canonical_position(
                (TileMapPosition { offset_x: (cand.offset_x + half_width) as i32, ..cand }),
            );
            let ok = is_walkable(
                tile_map.spec_tile_value_abs(cand.abs_tile_x, cand.abs_tile_y, cand.abs_tile_z),
            ) && is_walkable(
                tile_map.spec_tile_value_abs(left.abs_tile_x, left.abs_tile_y, left.abs_tile_z),
            ) && is_walkable(
                tile_map.spec_tile_value_abs(right.abs_tile_x, right.abs_tile_y, right.abs_tile_z),
            );
            let entered = !(cand.abs_tile_x == player.abs_tile_x && cand.abs_tile_y
                == player.abs_tile_y && cand.abs_tile_z == player.abs_tile_z);
            let value = tile_map.spec_tile_value_abs(
                cand.abs_tile_x,
                cand.abs_tile_y,
                cand.abs_tile_z,
            );
            &&& r.1 == ok
            &&& !ok ==> r.0 == *player
            &&& (ok && entered && value == TILE_STAIRS_UP) ==> r.0 == (TileMapPosition {
                abs_tile_z: wrap_tile(cand.abs_tile_z + 1) as u32,
                ..cand
            })
            &&& (ok && entered && value == TILE_STAIRS_DOWN) ==> r.0 == (TileMapPosition {
                abs_tile_z: wrap_tile(cand.abs_tile_z - 1) as u32,
                ..cand
            })
            &&& (ok && !(entered && (value == TILE_STAIRS_UP || value == TILE_STAIRS_DOWN)))
                ==> r.0 == cand
        }),
{
    let mut new_player = *player;
    new_player.offset_x = new_player.offset_x + d_offset_x;
    new_player.offset_y = new_player.offset_y + d_offset_y;
    let mut new_player = recanonicalize_position(tile_map, new_player);

    let mut player_left = new_player;
    player_left.offset_x = player_left.offset_x - half_width;
    let player_left = recanonicalize_position(tile_map, player_left);

    let mut player_right = new_player;
    player_right.offset_x = player_right.offset_x + half_width;
    let player_right = recanonicalize_position(tile_map, player_right);

    if is_tile_map_point_empty(tile_map, &new_player) && is_tile_map_point_empty(
        tile_map,
        &player_left,
    ) && is_tile_map_point_empty(tile_map, &player_right) {
        if !(new_player.abs_tile_x == player.abs_tile_x && new_player.abs_tile_y
            == player.abs_tile_y && new_player.abs_tile_z == player.abs_tile_z) {
            let new_tile_value = get_tile_value(tile_map, &new_player);
            proof {
                lemma_wrap_small_add(new_player.abs_tile_z as int, 1);
                lemma_wrap_small_sub(new_player.abs_tile_z as int, 1);
            }
            if new_tile_value == TILE_STAIRS_UP {
                new_player.abs_tile_z = new_player.abs_tile_z.wrapping_add(1);
            } else if new_tile_value == TILE_STAIRS_DOWN {
                new_player.abs_tile_z = new_player.abs_tile_z.wrapping_sub(1);
            }
        }
        (new_player, true)
    } else {
        (*player, false)
    }
}

/// Scrolls the camera a whole screen at a time: it follows the player's
/// floor, and whenever the player is more than half a screen away on an
/// axis the camera jumps one screen along it, wrapping toroidally with the
/// tile coordinates.
pub fn update_camera(tile_map: &TileMap, camera: &TileMapPosition, player: &TileMapPosition) -> (r:
    TileMapPosition)
    requires
        tile_map.config_wf(),
    ensures
        ({
            let side = tile_map.tile_side_in_units as int;
            let dx = spec_diff_axis(
                side,
                player.abs_tile_x as int,
                camera.abs_tile_x as int,
                player.offset_x as int,
                camera.offset_x as int,
            );
            let dy = spec_diff_axis(
                side,
                player.abs_tile_y as int,
                camera.abs_tile_y as int,
                player.offset_y as int,
                camera.offset_y as int,
            );
            &&& r.abs_tile_z == player.abs_tile_z
            &&& r.offset_x == camera.offset_x
            &&& r.offset_y == camera.offset_y
            &&& r.abs_tile_x as int == (if dx > 9 * side {
                wrap_tile(camera.abs_tile_x + TILES_PER_SCREEN_X)
            } else if dx < -(9 * side) {
                wrap_tile(camera.abs_tile_x - TILES_PER_SCREEN_X)
            } else {
                camera.abs_tile_x as int
            })
            &&& r.abs_tile_y as int == (if dy > 5 * side {
                wrap_tile(camera.abs_tile_y + TILES_PER_SCREEN_Y)
            } else if dy < -(5 * side) {
                wrap_tile(camera.abs_tile_y - TILES_PER_SCREEN_Y)
            } else {
                camera.abs_tile_y as int
            })
        }),
{
    let side: i64 = tile_map.tile_side_in_units as i64;
    let mut result = *camera;
    result.abs_tile_z = player.abs_tile_z;

    let diff = subtract(tile_map, player, &result);
    proof {
        lemma_wrap_small_add(camera.abs_tile_x as int, TILES_PER_SCREEN_X as int);
        lemma_wrap_small_sub(camera.abs_tile_x as int, TILES_PER_SCREEN_X as int);
        lemma_wrap_small_add(camera.abs_tile_y as int, TILES_PER_SCREEN_Y as int);
        lemma_wrap_small_sub(camera.abs_tile_y as int, TILES_PER_SCREEN_Y as int);
    }
    if diff.dx > 9 * side {
        result.abs_tile_x = result.abs_tile_x.wrapping_add(TILES_PER_SCREEN_X);
    }
    if diff.dx < -(9 * side) {
        result.abs_tile_x = result.abs_tile_x.wrapping_sub(TILES_PER_SCREEN_X);
    }
    if diff.dy > 5 * side {
        result.abs_tile_y = result.abs_tile_y.wrapping_add(TILES_PER_SCREEN_Y);
    }
    if diff.dy < -(5 * side) {
        result.abs_tile_y = result.abs_tile_y.wrapping_sub(TILES_PER_SCREEN_Y);
    }
    result
}

/// Relies on `rand::random_range`: a draw from the non-empty range `0..n`
/// with the thread-local generator lies strictly below `n`.
#[verifier::external_body]
fn random_below(n: u32) -> (r: u32)
    requires
        1 <= n,
    ensures
        r < n,
{
    rand::random_range(0..n)
}

/// Draws how the next generated screen connects onward: `0` opens the top
/// door, `1` the right door, `2` a stair connection. A stair connection is
/// only drawn where one is allowed (none is pending).
pub fn random_door_choice(allow_stairs: bool) -> (r: u32)
    ensures
        r < 3,
        !allow_stairs ==> r < 2,
{
    if allow_stairs {
        random_below(3)
    } else {
        random_below(2)
    }
}

/// Carves `screens` connected screens of rooms into a fresh map: a random
/// walk that steps right, up, or between the two lowest floors, each screen
/// walled at its border except for the doors joining it to its neighbours,
/// with a stair tile where a floor connection was drawn. The walk stays
/// inside the declared chunk grid. Whatever the random draws, the map stays
/// well formed, its configuration untouched, and the world's origin corner
/// tile is a wall.
pub fn generate_world(tile_map: &mut TileMap, screens: u32)
    requires
        old(tile_map).wf(),
        1 <= screens,
        screens * TILES_PER_SCREEN_X <= (old(tile_map).chunk_dim as int) * (
        old(tile_map).tile_chunk_count_x as int),
        screens * TILES_PER_SCREEN_Y <= (old(tile_map).chunk_dim as int) * (
        old(tile_map).tile_chunk_count_y as int),
        screens * TILES_PER_SCREEN_X <= 0x1_0000_0000,
        screens * TILES_PER_SCREEN_Y <= 0x1_0000_0000,
        old(tile_map).tile_chunk_count_z >= 2,
    ensures
        final(tile_map).wf(),
        final(tile_map).same_config(*old(tile_map)),
        final(tile_map).spec_tile_value_abs(0, 0, 0) == TILE_WALL,
{
    let tiles_per_width: u32 = TILES_PER_SCREEN_X;
    let tiles_per_height: u32 = TILES_PER_SCREEN_Y;
    let mut screen_x: u32 = 0;
    let mut screen_y: u32 = 0;
    let mut abs_tile_z: u32 = 0;

    let mut door_left = false;
    let mut door_right = false;
    let mut door_top = false;
    let mut door_bottom = false;
    let mut door_up = false;
    let mut door_down = false;

    let mut screen_index: u32 = 0;
    while screen_index < screens
        invariant
            tile_map.wf(),
            tile_map.same_config(*old(tile_map)),
            screen_index <= screens,
            screen_x + screen_y <= screen_index,
            abs_tile_z <= 1,
            tiles_per_width == TILES_PER_SCREEN_X,
            tiles_per_height == TILES_PER_SCREEN_Y,
            screens * TILES_PER_SCREEN_X <= (tile_map.chunk_dim as int) * (
            tile_map.tile_chunk_count_x as int),
            screens * TILES_PER_SCREEN_Y <= (tile_map.chunk_dim as int) * (
            tile_map.tile_chunk_count_y as int),
            screens * TILES_PER_SCREEN_X <= 0x1_0000_0000,
            screens * TILES_PER_SCREEN_Y <= 0x1_0000_0000,
            tile_map.tile_chunk_count_z >= 2,
            screen_index >= 1 ==> tile_map.spec_tile_value_abs(0, 0, 0) == TILE_WALL,
            screen_index == 0 ==> screen_x == 0 && screen_y == 0 && abs_tile_z == 0,
        decreases screens - screen_index,
    {
        let allow_stairs = !(door_up || door_down);
        let random_choice = random_door_choice(allow_stairs);

        let mut created_z_door = false;
        if random_choice == 2 {
            created_z_door = true;
            if abs_tile_z == 0 {
                door_up = true;
            } else {
                door_down = true;
            }
        } else if random_choice == 1 {
            door_right = true;
        } else {
            door_top = true;
        }

        let mut tile_y: u32 = 0;
        while tile_y < tiles_per_height
            invariant
                tile_map.wf(),
                tile_map.same_config(*old(tile_map)),
                screen_index < screens,
                screen_x + screen_y <= screen_index,
                abs_tile_z <= 1,
                tile_y <= tiles_per_height,
                tiles_per_width == TILES_PER_SCREEN_X,
                tiles_per_height == TILES_PER_SCREEN_Y,
                screens * TILES_PER_SCREEN_X <= (tile_map.chunk_dim as int) * (
                tile_map.tile_chunk_count_x as int),
                screens * TILES_PER_SCREEN_Y <= (tile_map.chunk_dim as int) * (
                tile_map.tile_chunk_count_y as int),
                screens * TILES_PER_SCREEN_X <= 0x1_0000_0000,
                screens * TILES_PER_SCREEN_Y <= 0x1_0000_0000,
                tile_map.tile_chunk_count_z >= 2,
                (screen_index >= 1 || tile_y >= 1) ==> tile_map.spec_tile_value_abs(0, 0, 0)
                    == TILE_WALL,
                screen_index == 0 ==> screen_x == 0 && screen_y == 0 && abs_tile_z == 0,
            decreases tiles_per_height - tile_y,
        {
            let mut tile_x: u32 = 0;
            while tile_x < tiles_per_width
                invariant
                    tile_map.wf(),
                    tile_map.same_config(*old(tile_map)),
                    screen_index < screens,
                    screen_x + screen_y <= screen_index,
                    abs_tile_z <= 1,
                    tile_y < tiles_per_height,
                    tile_x <= tiles_per_width,
                    tiles_per_width == TILES_PER_SCREEN_X,
                    tiles_per_height == TILES_PER_SCREEN_Y,
                    screens * TILES_PER_SCREEN_X <= (tile_map.chunk_dim as int) * (
                    tile_map.tile_chunk_count_x as int),
                    screens * TILES_PER_SCREEN_Y <= (tile_map.chunk_dim as int) * (
                    tile_map.tile_chunk_count_y as int),
                    screens * TILES_PER_SCREEN_X <= 0x1_0000_0000,
                    screens * TILES_PER_SCREEN_Y <= 0x1_0000_0000,
                    tile_map.tile_chunk_count_z >= 2,
                    (screen_index >= 1 || tile_y >= 1 || tile_x >= 1)
                        ==> tile_map.spec_tile_value_abs(0, 0, 0) == TILE_WALL,
                    screen_index == 0 ==> screen_x == 0 && screen_y == 0 && abs_tile_z == 0,
                decreases tiles_per_width - tile_x,
            {
                proof {
                    assert(screen_x * TILES_PER_SCREEN_X + tile_x < screens * TILES_PER_SCREEN_X
                        && screen_y * TILES_PER_SCREEN_Y + tile_y < screens * TILES_PER_SCREEN_Y)
                        by (nonlinear_arith)
                        requires
                            screen_x <= screens - 1,
                            screen_y <= screens - 1,
                            tile_x < TILES_PER_SCREEN_X,
                            tile_y < TILES_PER_SCREEN_Y,
                            1 <= screens,
                    ;
                }
                let abs_tile_x = screen_x * tiles_per_width + tile_x;
                let abs_tile_y = screen_y * tiles_per_height + tile_y;

                let tile_value: u32 = if door_down && tile_x == 10 && tile_y == 6 {
                    TILE_STAIRS_DOWN
                } else if door_up && tile_x == 10 && tile_y == 6 {
                    TILE_STAIRS_UP
                } else if (tile_x == 0 && (!door_left || tile_y != tiles_per_height / 2)) || (tile_x
                    == tiles_per_width - 1 && (!door_right || tile_y != tiles_per_height / 2)) || (
                tile_y == 0 && (!door_bottom || tile_x != tiles_per_width / 2)) || (tile_y
                    == tiles_per_height - 1 && (!door_top || tile_x != tiles_per_width / 2)) {
                    TILE_WALL
                } else {
                    TILE_FLOOR
                };

                proof {
                    lemma_chunk_coord_bound(*tile_map, abs_tile_x, tile_map.tile_chunk_count_x);
                    lemma_chunk_coord_bound(*tile_map, abs_tile_y, tile_map.tile_chunk_count_y);
                }
                let ghost m_before = *tile_map;
                let ghost had_wall = m_before.spec_tile_value_abs(0, 0, 0) == TILE_WALL;
                set_tile_value(tile_map, abs_tile_x, abs_tile_y, abs_tile_z, tile_value);
                proof {
                    if abs_tile_x == 0 && abs_tile_y == 0 && abs_tile_z == 0 {
                        assert(screen_x * TILES_PER_SCREEN_X == 0 ==> screen_x == 0)
                            by (nonlinear_arith);
                        assert(screen_y * TILES_PER_SCREEN_Y == 0 ==> screen_y == 0)
                            by (nonlinear_arith);
                        assert(tile_value == TILE_WALL);
                    } else if had_wall {
                        if m_before.same_chunk(0, 0, 0, abs_tile_x, abs_tile_y, abs_tile_z)
                            && m_before.chunk_unfilled_at(abs_tile_x, abs_tile_y, abs_tile_z) {
                            assert(m_before.chunk_unfilled_at(0, 0, 0));
                            lemma_unfilled_chunk_reads_unknown(m_before, 0, 0, 0);
                            assert(false);
                        }
                        assert(tile_map.spec_tile_value_abs(0, 0, 0) == TILE_WALL);
                    }
                }
                tile_x = tile_x + 1;
            }
            tile_y = tile_y + 1;
        }

        door_left = door_right;
        door_bottom = door_top;

        if created_z_door {
            door_down = !door_down;
            door_up = !door_up;
        } else {
            door_up = false;
            door_down = false;
        }

        door_right = false;
        door_top = false;

        if random_choice == 2 {
            if abs_tile_z == 0 {
                abs_tile_z = 1;
            } else {
                abs_tile_z = 0;
            }
        } else if random_choice == 1 {
            screen_x = screen_x + 1;
        } else {
            screen_y = screen_y + 1;
        }
        screen_index = screen_index + 1;
    }
}

} // verus!
