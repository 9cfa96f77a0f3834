use std::collections::HashMap;
use tilephys::states::{
    apply_portals, platform_velocity, process_input, update_players, GameData, GameState, Input,
    Mode, Scroll, StateResult, Title,
};
use tilephys::tiles::{Tile, Tilemap, Tileset};
use tilephys::types::{Player, Vec2i};

fn plain_tile() -> Tile {
    Tile { solid: false, jump_reset: false, restart: false }
}

fn no_keys() -> Input {
    Input {
        right_held: false,
        left_held: false,
        up_held: false,
        down_held: false,
        up_released: false,
        p_held: false,
        x_held: false,
    }
}

fn sample_state(pos: Vec2i, vel: Vec2i, mode: Mode) -> GameState {
    let tileset = Tileset::new(vec![plain_tile(); 16]);
    let chunk = Tilemap::new(Vec2i(0, 0), (8, 8), &tileset, vec![0; 64]);
    let side_chunk = Tilemap::new(Vec2i(0, 0), (8, 8), &tileset, vec![0; 64]);
    let mut players = HashMap::new();
    players.insert(1, Player { id: 1, pos, vel, world: 0 });
    GameState {
        local_id: 1,
        players,
        sizes: vec![(32, 32)],
        level: 0,
        camera: Vec2i(0, 0),
        background_pos: Vec2i(0, 0),
        state_stack: vec![mode],
        game_data: GameData {
            score: 0,
            speed_multiplier: 1,
            num_jumps: 0,
            portals: vec![],
            restart: false,
        },
        map_x_boundary: 1024,
        map_y_boundary: 1024,
        tt_tileset: tileset,
        maps: vec![chunk],
        side_map: vec![side_chunk],
        game: 1,
        spawn_point: Vec2i(50, 50),
    }
}

#[test]
fn platform_velocity_jump_launch_and_taper() {
    // From rest, holding "up" launches the jump impulse (-5), which the
    // per-frame ascent halving tapers to -2; the jump counter advances.
    let mut input = no_keys();
    input.up_held = true;
    let (v, nj) = platform_velocity(Vec2i(0, 0), 0, &input);
    assert_eq!(v, Vec2i(0, -2));
    assert_eq!(nj, 1);
    // with both jumps spent, holding "up" no longer launches
    let (v2, nj2) = platform_velocity(Vec2i(0, 0), 2, &input);
    assert_eq!(nj2, 2);
    assert_eq!(v2, Vec2i(0, 0));
}

#[test]
fn platform_velocity_gravity_and_nudge() {
    // Holding "right" nudges horizontal velocity by 2 (clamped at 20);
    // with "up" not held, constant downward gravity applies.
    let mut input = no_keys();
    input.right_held = true;
    let (v, nj) = platform_velocity(Vec2i(0, 0), 0, &input);
    assert_eq!(v, Vec2i(2, 2));
    assert_eq!(nj, 0);
    let (v_capped, _) = platform_velocity(Vec2i(20, 0), 0, &input);
    assert_eq!(v_capped.0, 20);
}

#[test]
fn platform_velocity_half_decay_and_variable_jump() {
    // No horizontal key: velocity half-decays toward zero. Releasing
    // "up" mid-ascent halves the remaining upward velocity, and the
    // ascent taper halves it again.
    let mut input = no_keys();
    input.up_released = true;
    let (v, _) = platform_velocity(Vec2i(8, -8), 0, &input);
    assert_eq!(v.0, 4);
    assert_eq!(v.1, -2);
}

#[test]
fn portals_relocate_on_exact_match_only() {
    let portals = vec![
        (Vec2i(10, 10), Vec2i(100, 100)),
        (Vec2i(20, 20), Vec2i(200, 200)),
    ];
    let (p, spawn) = apply_portals(&portals, Vec2i(20, 20), Vec2i(1, 1));
    assert_eq!(p, Vec2i(200, 200));
    assert_eq!(spawn, Vec2i(200, 200));
    let (p2, spawn2) = apply_portals(&portals, Vec2i(20, 21), Vec2i(1, 1));
    assert_eq!(p2, Vec2i(20, 21));
    assert_eq!(spawn2, Vec2i(1, 1));
}

#[test]
fn remote_snapshots_overwrite_registry_by_id() {
    let mut players = HashMap::new();
    players.insert(1, Player { id: 1, pos: Vec2i(0, 0), vel: Vec2i(0, 0), world: 0 });
    let others = vec![
        Player { id: 1, pos: Vec2i(9, 9), vel: Vec2i(1, 1), world: 1 },
        Player { id: 7, pos: Vec2i(3, 4), vel: Vec2i(0, 2), world: 0 },
    ];
    update_players(&mut players, &others);
    assert_eq!(players.len(), 2);
    assert_eq!(players[&1], others[0]);
    assert_eq!(players[&7], others[1]);
}

#[test]
fn platform_frame_applies_gravity_and_locks_camera() {
    let mut g = sample_state(Vec2i(100, 100), Vec2i(0, 0), Mode::Scroll);
    let r = Scroll().update(&mut g, &no_keys());
    assert_eq!(r, StateResult::Keep);
    let p = g.players[&1];
    assert_eq!(p.pos, Vec2i(100, 102)); // gravity velocity of 2
    assert_eq!(p.vel, Vec2i(0, 2));
    assert_eq!(g.camera, Vec2i(100 - 320, 102 - 240));
    assert!(!g.game_data.restart);
}

#[test]
fn platform_frame_follows_portal_and_moves_spawn() {
    let mut g = sample_state(Vec2i(100, 100), Vec2i(0, 0), Mode::Scroll);
    g.game_data.portals = vec![(Vec2i(100, 102), Vec2i(500, 600))];
    let r = Scroll().update(&mut g, &no_keys());
    assert_eq!(r, StateResult::Keep);
    let p = g.players[&1];
    assert_eq!(p.pos, Vec2i(500, 600));
    assert_eq!(g.spawn_point, Vec2i(500, 600));
    assert_eq!(g.camera, Vec2i(500 - 320, 600 - 240));
}

#[test]
fn restart_tile_respawns_and_clears_flag() {
    let mut g = sample_state(Vec2i(40, 40), Vec2i(0, 0), Mode::Scroll);
    // the integrated position is (40, 42); its top-left corner samples
    // the cell at tile coordinates (1, 1)
    let tileset = Tileset::new(vec![
        plain_tile(),
        Tile { solid: false, jump_reset: false, restart: true },
    ]);
    let mut grid = vec![0usize; 64];
    grid[8 + 1] = 1;
    g.side_map = vec![Tilemap::new(Vec2i(0, 0), (8, 8), &tileset, grid)];
    g.spawn_point = Vec2i(777, 888);
    let r = Scroll().update(&mut g, &no_keys());
    assert_eq!(r, StateResult::Keep);
    assert_eq!(g.players[&1].pos, Vec2i(777, 888));
    assert!(!g.game_data.restart);
    assert_eq!(g.spawn_point, Vec2i(777, 888));
}

#[test]
fn jump_reset_tile_clears_jump_counter() {
    let mut g = sample_state(Vec2i(40, 40), Vec2i(0, 0), Mode::Scroll);
    g.game_data.num_jumps = 2;
    // bottom corners of the integrated position (40, 42) sample row 2
    // (the square corner footprint uses the width on both axes)
    let tileset = Tileset::new(vec![
        plain_tile(),
        Tile { solid: false, jump_reset: true, restart: false },
    ]);
    let mut grid = vec![0usize; 64];
    grid[2 * 8 + 1] = 1;
    g.side_map = vec![Tilemap::new(Vec2i(0, 0), (8, 8), &tileset, grid)];
    Scroll().update(&mut g, &no_keys());
    assert_eq!(g.game_data.num_jumps, 0);
}

#[test]
fn exploration_frame_steps_position_directly() {
    let mut g = sample_state(Vec2i(10, 10), Vec2i(0, 0), Mode::Title);
    let mut input = no_keys();
    input.right_held = true;
    let r = Title().update(&mut g, &input);
    assert_eq!(r, StateResult::Keep);
    assert_eq!(g.players[&1].pos, Vec2i(15, 10));
    assert_eq!(g.camera, Vec2i(0, 0)); // within the deadzone
    assert_eq!(g.maps.len(), 1); // camera far from the boundary
}

#[test]
fn exploration_growth_appends_a_column_of_chunks() {
    let mut g = sample_state(Vec2i(300, 10), Vec2i(0, 0), Mode::Title);
    g.camera = Vec2i(400, 0); // within a viewport of the 1024 boundary
    let mut input = no_keys();
    input.right_held = true;
    Title().update(&mut g, &input);
    assert_eq!(g.map_x_boundary, 1280);
    assert_eq!(g.map_y_boundary, 1024);
    assert_eq!(g.maps.len(), 1 + 4); // 1024 / 256 chunks in the new column
    for (k, m) in g.maps.iter().skip(1).enumerate() {
        assert_eq!(m.position, Vec2i(1024, 256 * k as i32));
        assert_eq!(m.dims, (8, 8));
    }
}

#[test]
fn process_input_keeps_mode_without_transition_keys() {
    let mut g = sample_state(Vec2i(10, 10), Vec2i(0, 0), Mode::Title);
    process_input(&mut g, &no_keys());
    assert_eq!(g.state_stack, vec![Mode::Title]);
    assert_eq!(g.players[&1].world, 0);
}

#[test]
fn process_input_swaps_into_platforming() {
    let mut g = sample_state(Vec2i(10, 10), Vec2i(3, 3), Mode::Title);
    let mut input = no_keys();
    input.p_held = true;
    process_input(&mut g, &input);
    assert_eq!(g.state_stack, vec![Mode::Scroll]);
    let p = g.players[&1];
    // entering platforming resets the entity to the platform spawn, then
    // the platform frame runs once in the same tick (gravity applies)
    assert_eq!(p.world, 1);
    assert_eq!(p.pos, Vec2i(50, 52));
    assert_eq!(p.vel, Vec2i(0, 2));
}

#[test]
fn process_input_swaps_back_to_exploration() {
    let mut g = sample_state(Vec2i(100, 100), Vec2i(0, 0), Mode::Scroll);
    let mut input = no_keys();
    input.x_held = true;
    process_input(&mut g, &input);
    assert_eq!(g.state_stack, vec![Mode::Title]);
    let p = g.players[&1];
    assert_eq!(p.world, 0);
    // the platform frame ran (gravity), then exploration ran with no
    // direction keys held, leaving the position as the platform left it
    assert_eq!(p.pos, Vec2i(100, 102));
}

#[test]
fn fresh_player_starts_at_origin() {
    let p = Player::new();
    assert_eq!(p.id, -1);
    assert_eq!(p.pos, Vec2i(0, 0));
    assert_eq!(p.vel, Vec2i(0, 0));
    assert_eq!(p.world, 0);
}

#[test]
fn exploration_clamps_leftward_motion_at_zero() {
    let mut g = sample_state(Vec2i(0, 0), Vec2i(0, 0), Mode::Title);
    let mut input = no_keys();
    input.left_held = true;
    Title().update(&mut g, &input);
    assert_eq!(g.players[&1].pos, Vec2i(0, 0));
    assert_eq!(g.camera, Vec2i(0, 0));
}

#[test]
fn exploration_camera_follows_past_deadzone() {
    // the camera follows only once the entity has moved past one chunk
    // minus one tile from the origin
    let mut g = sample_state(Vec2i(222, 10), Vec2i(0, 0), Mode::Title);
    let mut input = no_keys();
    input.right_held = true;
    Title().update(&mut g, &input);
    assert_eq!(g.players[&1].pos, Vec2i(227, 10));
    assert_eq!(g.camera, Vec2i(5, 0));
}

#[test]
fn double_jump_blocks_a_third_launch() {
    let mut input = no_keys();
    input.up_held = true;
    let (_, nj1) = platform_velocity(Vec2i(0, 0), 0, &input);
    let (_, nj2) = platform_velocity(Vec2i(0, 0), nj1, &input);
    let (v3, nj3) = platform_velocity(Vec2i(0, 0), nj2, &input);
    assert_eq!(nj1, 1);
    assert_eq!(nj2, 2);
    assert_eq!(nj3, 2); // no third launch
    assert_eq!(v3.1, 0); // and no fresh impulse
}

#[test]
fn exploration_growth_appends_a_row_of_chunks() {
    let mut g = sample_state(Vec2i(10, 300), Vec2i(0, 0), Mode::Title);
    g.camera = Vec2i(0, 600); // within a viewport of the 1024 boundary
    let mut input = no_keys();
    input.down_held = true;
    Title().update(&mut g, &input);
    assert_eq!(g.map_y_boundary, 1280);
    assert_eq!(g.map_x_boundary, 1024);
    assert_eq!(g.maps.len(), 1 + 4);
    for (k, m) in g.maps.iter().skip(1).enumerate() {
        assert_eq!(m.position, Vec2i(256 * k as i32, 1024));
    }
}

#[test]
fn exploration_restitution_shifts_camera_in_lockstep() {
    // In exploration mode the camera keeps the restitution adjustment
    // instead of being recomputed from the entity.
    let mut g = sample_state(Vec2i(0, 5), Vec2i(0, 5), Mode::Title);
    let tileset = Tileset::new(vec![
        plain_tile(),
        Tile { solid: true, jump_reset: false, restart: false },
    ]);
    let mut grid = vec![0usize; 64];
    grid[8] = 1; // solid tile at world rect {0, 32, 32, 32}
    g.maps = vec![Tilemap::new(Vec2i(0, 0), (8, 8), &tileset, grid)];
    g.camera = Vec2i(7, 9);
    Title().update(&mut g, &no_keys());
    let p = g.players[&1];
    assert_eq!(p.pos, Vec2i(0, 0)); // pushed back out of the tile
    assert_eq!(p.vel, Vec2i(0, 0)); // vertical velocity zeroed
    assert_eq!(g.camera, Vec2i(7, 4)); // camera moved by the same delta
}
