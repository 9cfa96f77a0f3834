//! The mode controller: a small stack-based state machine with two live
//! states — free four-directional exploration over a growing chunked world,
//! and gravity/jump platforming — that reads input, advances the controlled
//! entity under mode-specific physics rules, runs contact generation and
//! restitution once per frame, and reacts to jump-reset tiles, restart
//! tiles and portal triggers.

use vstd::prelude::*;
use std::collections::HashMap;
use crate::collision::{
    all_pair_contacts, all_tile_contacts, any_jump_reset, any_restart, gather_contacts,
    lemma_resolve_upto_bounds, lemma_resolve_vel_bounds, lemma_single_gather_wf,
    lemma_sort_desc_len, resolve_upto, restitute, size_in_range, sort_desc, Contact,
};
use crate::tiles::{wf_tilemap, Tilemap, Tileset, CHUNK_SZ, COORD_LIMIT};
use crate::types::{div_trunc, div_trunc_i32, lemma_div_trunc_half, Player, Vec2i};

verus! {

broadcast use vstd::std_specs::hash::group_hash_axioms;

/// Viewport width in world units.
pub const WIDTH: usize = 640;

/// Viewport height in world units.
pub const HEIGHT: usize = 480;

/// A per-frame snapshot of the keys the controller reads.
#[derive(Clone, Copy, PartialEq, Eq, Structural, Debug)]
pub struct Input {
    pub right_held: bool,
    pub left_held: bool,
    pub up_held: bool,
    pub down_held: bool,
    pub up_released: bool,
    /// The designated "enter platforming" key.
    pub p_held: bool,
    /// The designated "exit platforming" key.
    pub x_held: bool,
}

/// Per-run gameplay state that is not per-entity: the jump counter, the
/// one-shot restart flag, the portal table, and bookkeeping counters.
pub struct GameData {
    pub score: usize,
    pub speed_multiplier: usize,
    /// Jumps used since the last jump-reset contact; always at most 2.
    pub num_jumps: usize,
    /// Exact-position teleport triggers: `(entry, exit)` pairs.
    pub portals: Vec<(Vec2i, Vec2i)>,
    /// One-shot flag raised by `restart` tiles, consumed by the next
    /// platform-mode respawn step.
    pub restart: bool,
}

/// The two live modes of the controller.
#[derive(Clone, Copy, PartialEq, Eq, Structural, Debug)]
pub enum Mode {
    /// Free exploration over the growing chunked overworld.
    Title,
    /// Gravity/jump platforming over the fixed side-scroller map.
    Scroll,
}

/// What a mode's update asks the state stack to do next.
#[derive(Clone, Copy, PartialEq, Eq, Structural, Debug)]
pub enum StateResult {
    /// Pop this state off the stack, update the one before it.
    Remove,
    /// Keep this state as is, stop propagating updates.
    Keep,
    /// Swap this state for a new one, and update the new one too.
    Swap(Mode),
    /// Push a new state on top of this one, and update it too.
    Push(Mode),
}

/// The whole mutable state the controller works over.
pub struct GameState {
    /// Id of the locally-controlled entity in `players`.
    pub local_id: i32,
    /// The shared player registry, keyed by entity id.
    pub players: HashMap<i32, Player>,
    /// Entity sizes; one controlled entity, so exactly one entry.
    pub sizes: Vec<(usize, usize)>,
    /// Current level index (rendering collaborator's concern).
    pub level: usize,
    /// Camera offset, shared with the restitution step.
    pub camera: Vec2i,
    /// Background offset (rendering collaborator's concern).
    pub background_pos: Vec2i,
    /// The mode stack; its top is updated each frame.
    pub state_stack: Vec<Mode>,
    pub game_data: GameData,
    /// Exclusive upper edge of the synthesized overworld columns.
    pub map_x_boundary: i32,
    /// Exclusive upper edge of the synthesized overworld rows.
    pub map_y_boundary: i32,
    /// Tileset used when synthesizing new overworld chunks.
    pub tt_tileset: Tileset,
    /// The growing overworld chunk list.
    pub maps: Vec<Tilemap>,
    /// The fixed platform-mode chunk list.
    pub side_map: Vec<Tilemap>,
    /// Which game's probability table chunk synthesis uses.
    pub game: usize,
    /// Where a restart tile (or mode entry) relocates the entity to.
    pub spawn_point: Vec2i,
}

/// Bound on player, spawn and portal coordinates under which a frame's
/// arithmetic stays far inside `i32`.
pub const PLAY_LIMIT: i32 = 0x0400_0000;

/// Structural well-formedness of the controller state: the registry knows
/// the controlled entity, the jump counter is within the double-jump
/// range, there is exactly one controlled entity size, the chunk lists are
/// non-empty and well-formed, the synthesis tileset covers every tile the
/// tables can pick, the boundaries are positive and bounded, and the
/// configured spawn point and portals are in range.
pub open spec fn wf_state(g: GameState) -> bool {
    &&& g.players@.contains_key(g.local_id)
    &&& g.game_data.num_jumps <= 2
    &&& g.sizes@.len() == 1
    &&& size_in_range(g.sizes@[0])
    &&& g.maps@.len() >= 1
    &&& forall|i: int| 0 <= i < g.maps@.len() ==> wf_tilemap(#[trigger] g.maps@[i])
    &&& g.side_map@.len() >= 1
    &&& forall|i: int| 0 <= i < g.side_map@.len() ==> wf_tilemap(#[trigger] g.side_map@[i])
    &&& g.tt_tileset.tiles@.len() >= 13
    &&& 0 < g.map_x_boundary <= COORD_LIMIT
    &&& 0 < g.map_y_boundary <= COORD_LIMIT
    &&& -PLAY_LIMIT <= g.spawn_point.0 <= PLAY_LIMIT && -PLAY_LIMIT <= g.spawn_point.1
        <= PLAY_LIMIT
    &&& forall|i: int|
        0 <= i < g.game_data.portals@.len() ==> {
            let p = #[trigger] g.game_data.portals@[i];
            -PLAY_LIMIT <= p.0.0 <= PLAY_LIMIT && -PLAY_LIMIT <= p.0.1 <= PLAY_LIMIT && -PLAY_LIMIT
                <= p.1.0 <= PLAY_LIMIT && -PLAY_LIMIT <= p.1.1 <= PLAY_LIMIT
        }
}

/// Platform-mode velocity rules for one frame: horizontal velocity is
/// nudged by a fixed increment toward the held direction (clamped), and
/// half-decays toward zero when no horizontal key is held; holding "up"
/// launches a jump impulse while fewer than two jumps are spent; releasing
/// "up" mid-ascent halves the remaining upward velocity; with "up" not
/// held and no ascent under way, a constant downward gravity velocity
/// applies; finally an ascending velocity is halved to taper the arc.
pub open spec fn spec_platform_velocity(vel: Vec2i, num_jumps: usize, input: Input) -> (
    Vec2i,
    usize,
) {
    let vx1: int = if input.right_held && vel.0 < 20 {
        vel.0 + 2
    } else {
        vel.0 as int
    };
    let vx2: int = if input.left_held && vx1 > -20 {
        vx1 - 2
    } else {
        vx1
    };
    let vx: int = if !input.right_held && !input.left_held {
        div_trunc(vx2, 2)
    } else {
        vx2
    };
    let launch = input.up_held && num_jumps < 2;
    let nj1: usize = if launch {
        (num_jumps + 1) as usize
    } else {
        num_jumps
    };
    let vy1: int = if input.up_held {
        if launch {
            -5
        } else {
            vel.1 as int
        }
    } else {
        let vy0: int = if input.up_released && vel.1 < 0 {
            div_trunc(vel.1 as int, 2)
        } else {
            vel.1 as int
        };
        if vy0 >= 0 {
            2
        } else {
            vy0
        }
    };
    let vy: int = if vy1 < 0 {
        div_trunc(vy1, 2)
    } else {
        vy1
    };
    (Vec2i(vx as i32, vy as i32), nj1)
}

/// Advances the controlled entity's velocity and jump counter under the
/// platform-mode rules.
pub fn platform_velocity(vel: Vec2i, num_jumps: usize, input: &Input) -> (r: (Vec2i, usize))
    requires
        -0x4000_0000 <= vel.0 <= 0x4000_0000,
        -0x4000_0000 <= vel.1 <= 0x4000_0000,
    ensures
        r == spec_platform_velocity(vel, num_jumps, *input),
        num_jumps <= 2 ==> r.1 <= 2,
        r.0.0 <= (if vel.0 > 21 { vel.0 as int } else { 21 }),
        r.0.0 >= (if vel.0 < -21 { vel.0 as int } else { -21 }),
        r.0.1 <= (if vel.1 > 2 { vel.1 as int } else { 2 }),
        r.0.1 >= (if vel.1 < -5 { vel.1 as int } else { -5 }),
{
    proof {
        lemma_div_trunc_half(vel.0 as int);
        lemma_div_trunc_half(vel.0 + 2);
        lemma_div_trunc_half(vel.0 - 2);
        lemma_div_trunc_half(vel.1 as int);
        lemma_div_trunc_half(div_trunc(vel.1 as int, 2));
        lemma_div_trunc_half(-5);
    }
    let mut vx = vel.0;
    if input.right_held && vx < 20 {
        vx = vx + 2;
    }
    if input.left_held && vx > -20 {
        vx = vx - 2;
    }
    if !input.right_held && !input.left_held {
        vx = div_trunc_i32(vx, 2);
    }
    let mut vy = vel.1;
    let mut nj = num_jumps;
    if input.up_held {
        if nj < 2 {
            vy = -5;
            nj = nj + 1;
        }
    } else {
        if input.up_released && vy < 0 {
            vy = div_trunc_i32(vy, 2);
        }
        if vy >= 0 {
            vy = 2;
        }
    }
    if vy < 0 {
        vy = div_trunc_i32(vy, 2);
    }
    (Vec2i(vx, vy), nj)
}

/// The respawn step: a raised restart flag relocates the entity to the
/// current spawn point and is cleared; nothing else changes.
pub open spec fn spec_apply_restart(pos: Vec2i, spawn: Vec2i, restart: bool) -> (Vec2i, bool) {
    if restart {
        (spawn, false)
    } else {
        (pos, restart)
    }
}

/// Index of the first portal whose entry point equals `pos` exactly,
/// scanning from index `i`.
pub open spec fn portal_hit_from(portals: Seq<(Vec2i, Vec2i)>, pos: Vec2i, i: int) -> Option<int>
    decreases portals.len() - i,
{
    if i < 0 || i >= portals.len() {
        None
    } else if portals[i].0 == pos {
        Some(i)
    } else {
        portal_hit_from(portals, pos, i + 1)
    }
}

/// Portal exactness: a position equal to a registered entry is relocated
/// to the paired exit, and the spawn point follows it; any other position
/// leaves both unchanged.
pub open spec fn spec_apply_portals(portals: Seq<(Vec2i, Vec2i)>, pos: Vec2i, spawn: Vec2i) -> (
    Vec2i,
    Vec2i,
) {
    match portal_hit_from(portals, pos, 0) {
        Some(i) => (portals[i].1, portals[i].1),
        None => (pos, spawn),
    }
}

/// Checks the position against every registered portal entry; an exact
/// match teleports to the paired exit and moves the spawn point there.
pub fn apply_portals(portals: &Vec<(Vec2i, Vec2i)>, pos: Vec2i, spawn: Vec2i) -> (r: (
    Vec2i,
    Vec2i,
))
    ensures
        r == spec_apply_portals(portals@, pos, spawn),
{
    let mut i: usize = 0;
    while i < portals.len()
        invariant
            i <= portals@.len(),
            portal_hit_from(portals@, pos, 0) == portal_hit_from(portals@, pos, i as int),
        decreases portals@.len() - i,
    {
        let e = portals[i];
        if e.0 == pos {
            return (e.1, e.1);
        }
        i += 1;
    }
    (pos, spawn)
}

/// The registry after merging the first `k` remote snapshots: each
/// overwrites the entry of its id, creating it if absent.
pub open spec fn merge_upto(m: Map<i32, Player>, others: Seq<Player>, k: int) -> Map<i32, Player>
    decreases k,
{
    if k <= 0 {
        m
    } else {
        merge_upto(m, others, k - 1).insert(others[k - 1].id, others[k - 1])
    }
}

/// Merges remote player snapshots into the registry: each snapshot's
/// fields overwrite the entry of its id, creating the entry if absent.
pub fn update_players(players: &mut HashMap<i32, Player>, others: &Vec<Player>)
    ensures
        final(players)@ == merge_upto(old(players)@, others@, others@.len() as int),
{
    let mut k: usize = 0;
    while k < others.len()
        invariant
            k <= others@.len(),
            players@ == merge_upto(old(players)@, others@, k as int),
        decreases others@.len() - k,
    {
        let o = others[k];
        players.insert(o.id, o);
        k += 1;
    }
}


/// Number of chunks needed to cover a span of world units at one chunk
/// per `CHUNK_SZ`.
pub open spec fn span_chunks(b: int) -> int
    decreases (if b <= 0 { 0int } else { b }),
{
    if b <= 0 {
        0
    } else {
        1 + span_chunks(b - 256)
    }
}

/// A chunk count is never negative.
proof fn lemma_span_chunks_nonneg(b: int)
    ensures
        span_chunks(b) >= 0,
    decreases (if b <= 0 { 0int } else { b }),
{
    if b > 0 {
        lemma_span_chunks_nonneg(b - 256);
    }
}

/// Appends one synthesized column (or row) of fresh chunks covering the
/// given span: one chunk per `CHUNK_SZ` world units, at the fixed
/// coordinate on the other axis.
fn synthesize_span(
    maps: &mut Vec<Tilemap>,
    tileset: &Tileset,
    fixed: i32,
    span: i32,
    game: usize,
    along_y: bool,
)
    requires
        tileset.tiles@.len() >= 13,
        -COORD_LIMIT <= fixed <= COORD_LIMIT,
        0 < span <= COORD_LIMIT,
    ensures
        final(maps)@.len() == old(maps)@.len() + span_chunks(span as int),
        final(maps)@.subrange(0, old(maps)@.len() as int) == old(maps)@,
        forall|k: int|
            old(maps)@.len() <= k < final(maps)@.len() ==> {
                let m = #[trigger] final(maps)@[k];
                &&& wf_tilemap(m)
                &&& m.dims == (8usize, 8usize)
                &&& m.tileset.tiles@ == tileset.tiles@
                &&& m.position == (if along_y {
                    Vec2i(fixed, ((k - old(maps)@.len()) * 256) as i32)
                } else {
                    Vec2i(((k - old(maps)@.len()) * 256) as i32, fixed)
                })
            },
{
    let ghost n0 = maps@.len() as int;
    let ghost m_init = maps@;
    proof {
        assert(maps@.subrange(0, n0) =~= maps@);
    }
    let mut i: i32 = 0;
    while i < span
        invariant
            tileset.tiles@.len() >= 13,
            -COORD_LIMIT <= fixed <= COORD_LIMIT,
            0 < span <= COORD_LIMIT,
            0 <= i <= span + 255,
            n0 == m_init.len(),
            maps@.len() >= n0,
            (maps@.len() - n0) * 256 == i,
            span_chunks(span as int) == (maps@.len() - n0) + span_chunks(span - i),
            maps@.subrange(0, n0) == m_init,
            forall|k: int|
                n0 <= k < maps@.len() ==> {
                    let m = #[trigger] maps@[k];
                    &&& wf_tilemap(m)
                    &&& m.dims == (8usize, 8usize)
                    &&& m.tileset.tiles@ == tileset.tiles@
                    &&& m.position == (if along_y {
                        Vec2i(fixed, ((k - n0) * 256) as i32)
                    } else {
                        Vec2i(((k - n0) * 256) as i32, fixed)
                    })
                },
        decreases span + 256 - i,
    {
        let psn = if along_y {
            Vec2i(fixed, i)
        } else {
            Vec2i(i, fixed)
        };
        let m = Tileset::create_map(tileset, psn, game);
        let ghost prev = maps@;
        maps.push(m);
        i = i + 256;
        proof {
            assert(maps@ == prev.push(m));
            assert forall|q: int| 0 <= q < n0 implies maps@.subrange(0, n0)[q] == m_init[q] by {
                assert(maps@.subrange(0, n0)[q] == maps@[q]);
                assert(maps@[q] == prev[q]);
                assert(prev.subrange(0, n0)[q] == prev[q]);
            }
            assert(maps@.subrange(0, n0) =~= m_init);
        }
    }
    proof {
        assert(maps@.subrange(0, n0) =~= old(maps)@);
    }
}

/// Exploration-mode movement for one frame: direct position stepping in
/// the four held directions, the camera following horizontally and
/// vertically once the entity has moved past a tile-sized deadzone from
/// the chunk origin, and the world boundary advancing by one chunk span
/// when the camera crosses within a viewport of it.
pub open spec fn spec_explore_move(pos: Vec2i, cam: Vec2i, xb: i32, yb: i32, input: Input) -> (
    Vec2i,
    Vec2i,
    i32,
    i32,
) {
    let p1 = if input.right_held {
        Vec2i((pos.0 + 5) as i32, pos.1)
    } else {
        pos
    };
    let c1 = if input.right_held && p1.0 > 224 {
        Vec2i((cam.0 + 5) as i32, cam.1)
    } else {
        cam
    };
    let xb1 = if input.right_held && c1.0 >= xb - WIDTH {
        (xb + CHUNK_SZ) as i32
    } else {
        xb
    };
    let p2 = if input.left_held && p1.0 > 0 {
        Vec2i((p1.0 - 7) as i32, p1.1)
    } else {
        p1
    };
    let c2 = if input.left_held && c1.0 > 0 {
        Vec2i((c1.0 - 7) as i32, c1.1)
    } else {
        c1
    };
    let p3 = if input.up_held && p2.1 > 0 {
        Vec2i(p2.0, (p2.1 - 7) as i32)
    } else {
        p2
    };
    let c3 = if input.up_held && c2.1 > 0 {
        Vec2i(c2.0, (c2.1 - 7) as i32)
    } else {
        c2
    };
    let p4 = if input.down_held {
        Vec2i(p3.0, (p3.1 + 7) as i32)
    } else {
        p3
    };
    let c4 = if input.down_held && p4.1 > 224 {
        Vec2i(c3.0, (c3.1 + 7) as i32)
    } else {
        c3
    };
    let yb1 = if input.down_held && c4.1 >= yb - HEIGHT {
        (yb + CHUNK_SZ) as i32
    } else {
        yb
    };
    (p4, c4, xb1, yb1)
}

/// One platform-mode frame over the controlled entity: velocity rules,
/// position integration, contact generation against the platform chunks
/// (updating the jump counter and restart flag), restitution, the restart
/// respawn, the portal check, and the hard-locked camera follow. Returns
/// `(position, velocity, jump counter, restart flag, spawn point, camera)`.
pub open spec fn spec_scroll_frame(
    pos: Vec2i,
    vel: Vec2i,
    num_jumps: usize,
    restart: bool,
    spawn: Vec2i,
    portals: Seq<(Vec2i, Vec2i)>,
    sizes: Seq<(usize, usize)>,
    side: Seq<Tilemap>,
    cam: Vec2i,
    input: Input,
) -> (Vec2i, Vec2i, usize, bool, Vec2i, Vec2i) {
    let vn = spec_platform_velocity(vel, num_jumps, input);
    let v1 = vn.0;
    let nj1 = vn.1;
    let p1 = Vec2i((pos.0 + v1.0) as i32, (pos.1 + v1.1) as i32);
    let ps = seq![p1];
    let nj2 = if any_jump_reset(side, ps, sizes) {
        0usize
    } else {
        nj1
    };
    let restart1 = restart || any_restart(side, ps, sizes);
    let contacts = all_pair_contacts(ps, sizes) + all_tile_contacts(side, ps, sizes);
    let sorted = sort_desc(contacts);
    let resolved = resolve_upto(ps, seq![v1], cam, sizes, sorted, sorted.len() as int);
    let pr = spec_apply_restart(resolved.0[0], spawn, restart1);
    let pp = spec_apply_portals(portals, pr.0, spawn);
    let cam2 = Vec2i((pp.0.0 - WIDTH / 2) as i32, (pp.0.1 - HEIGHT / 2) as i32);
    (pp.0, resolved.1[0], nj2, pr.1, pp.1, cam2)
}

/// Coordinate bounds under which one controller frame's arithmetic stays
/// inside `i32`: the controlled entity's position and the camera within
/// `b`, its velocity within `bv`.
pub open spec fn frame_in(g: GameState, b: int, bv: int) -> bool {
    let cur = g.players@[g.local_id];
    &&& -b <= cur.pos.0 <= b && -b <= cur.pos.1 <= b
    &&& -b <= g.camera.0 <= b && -b <= g.camera.1 <= b
    &&& -bv <= cur.vel.0 <= bv && -bv <= cur.vel.1 <= bv
}

/// What one platform-mode update does to the state (the mode stack
/// aside): the frame function applied to the controlled entity, and, with
/// the exit key held, the swap back to exploration with velocity reset
/// and the entity reassigned to the exploration world.
pub open spec fn scroll_frame_rel(g1: GameState, g2: GameState, input: Input, r: StateResult) -> bool {
    let cur = g1.players@[g1.local_id];
    let out = spec_scroll_frame(
        cur.pos,
        cur.vel,
        g1.game_data.num_jumps,
        g1.game_data.restart,
        g1.spawn_point,
        g1.game_data.portals@,
        g1.sizes@,
        g1.side_map@,
        g1.camera,
        input,
    );
    &&& g2.camera == out.5
    &&& g2.game_data.num_jumps == out.2
    &&& g2.game_data.restart == out.3
    &&& g2.spawn_point == out.4
    &&& g2.level == 0
    &&& (if input.x_held {
        &&& g2.players@ == g1.players@.insert(
            g1.local_id,
            Player { id: cur.id, pos: out.0, vel: Vec2i(0, 0), world: 0 },
        )
        &&& r == StateResult::Swap(Mode::Title)
    } else {
        &&& g2.players@ == g1.players@.insert(
            g1.local_id,
            Player { id: cur.id, pos: out.0, vel: out.1, world: cur.world },
        )
        &&& r == StateResult::Keep
    })
    &&& g2.local_id == g1.local_id
    &&& g2.sizes@ == g1.sizes@
    &&& g2.background_pos == g1.background_pos
    &&& g2.game_data.score == g1.game_data.score
    &&& g2.game_data.speed_multiplier == g1.game_data.speed_multiplier
    &&& g2.game_data.portals@ == g1.game_data.portals@
    &&& g2.maps@ == g1.maps@
    &&& g2.side_map@ == g1.side_map@
    &&& g2.map_x_boundary == g1.map_x_boundary
    &&& g2.map_y_boundary == g1.map_y_boundary
    &&& g2.tt_tileset.tiles@ == g1.tt_tileset.tiles@
    &&& g2.game == g1.game
}

/// The outcome of the exploration frame's physics: positions, velocities
/// and camera after gathering contacts against the (grown) chunk list and
/// resolving them, starting from the moved position.
pub open spec fn explore_resolved(
    g1: GameState,
    ms: Seq<Tilemap>,
    pos: Vec2i,
    vel: Vec2i,
    input: Input,
) -> (Seq<Vec2i>, Seq<Vec2i>, Vec2i) {
    let mv = spec_explore_move(pos, g1.camera, g1.map_x_boundary, g1.map_y_boundary, input);
    let ps = seq![mv.0];
    let contacts = all_pair_contacts(ps, g1.sizes@) + all_tile_contacts(ms, ps, g1.sizes@);
    let sorted = sort_desc(contacts);
    resolve_upto(ps, seq![vel], mv.1, g1.sizes@, sorted, sorted.len() as int)
}

/// What the exploration frame does to everything but the player registry
/// and the mode stack: movement-driven boundary growth with freshly
/// synthesized chunks (their tiles random, their shape and placement
/// fixed), then contact generation and restitution against the grown
/// chunk list, the camera following in lock-step.
pub open spec fn explore_phys_rel(
    g1: GameState,
    g2: GameState,
    pos: Vec2i,
    vel: Vec2i,
    input: Input,
) -> bool {
    let mv = spec_explore_move(pos, g1.camera, g1.map_x_boundary, g1.map_y_boundary, input);
    let xb1 = mv.2;
    let yb1 = mv.3;
    let nx: int = if xb1 != g1.map_x_boundary {
        span_chunks(g1.map_y_boundary as int)
    } else {
        0
    };
    let ny: int = if yb1 != g1.map_y_boundary {
        span_chunks(xb1 as int)
    } else {
        0
    };
    let n0 = g1.maps@.len() as int;
    let ms = g2.maps@;
    let ps = seq![mv.0];
    &&& g2.map_x_boundary == xb1
    &&& g2.map_y_boundary == yb1
    &&& ms.len() == n0 + nx + ny
    &&& ms.subrange(0, n0) == g1.maps@
    &&& (forall|k: int|
        n0 <= k < n0 + nx ==> {
            let m = #[trigger] ms[k];
            &&& wf_tilemap(m)
            &&& m.dims == (8usize, 8usize)
            &&& m.tileset.tiles@ == g1.tt_tileset.tiles@
            &&& m.position == Vec2i(g1.map_x_boundary, ((k - n0) * 256) as i32)
        })
    &&& (forall|k: int|
        n0 + nx <= k < n0 + nx + ny ==> {
            let m = #[trigger] ms[k];
            &&& wf_tilemap(m)
            &&& m.dims == (8usize, 8usize)
            &&& m.tileset.tiles@ == g1.tt_tileset.tiles@
            &&& m.position == Vec2i(((k - n0 - nx) * 256) as i32, g1.map_y_boundary)
        })
    &&& g2.camera == explore_resolved(g1, ms, pos, vel, input).2
    &&& g2.game_data.num_jumps == (if any_jump_reset(ms, ps, g1.sizes@) {
        0usize
    } else {
        g1.game_data.num_jumps
    })
    &&& g2.game_data.restart == (g1.game_data.restart || any_restart(ms, ps, g1.sizes@))
    &&& g2.local_id == g1.local_id
    &&& g2.sizes@ == g1.sizes@
    &&& g2.level == g1.level
    &&& g2.background_pos == g1.background_pos
    &&& g2.game_data.score == g1.game_data.score
    &&& g2.game_data.speed_multiplier == g1.game_data.speed_multiplier
    &&& g2.game_data.portals@ == g1.game_data.portals@
    &&& g2.side_map@ == g1.side_map@
    &&& g2.tt_tileset.tiles@ == g1.tt_tileset.tiles@
    &&& g2.game == g1.game
    &&& g2.spawn_point == g1.spawn_point
}

/// What one exploration-mode update does to the state (the mode stack
/// aside): the exploration physics, and then, with the enter key held,
/// the swap into platforming at the platforming spawn with velocity
/// reset; otherwise the controlled entity takes the resolved position
/// and velocity.
pub open spec fn title_frame_rel(g1: GameState, g2: GameState, input: Input, r: StateResult) -> bool {
    let cur = g1.players@[g1.local_id];
    let resolved = explore_resolved(g1, g2.maps@, cur.pos, cur.vel, input);
    &&& explore_phys_rel(g1, g2, cur.pos, cur.vel, input)
    &&& (if input.p_held {
        &&& g2.players@ == g1.players@.insert(
            g1.local_id,
            Player { id: cur.id, pos: Vec2i(50, 50), vel: Vec2i(0, 0), world: 1 },
        )
        &&& r == StateResult::Swap(Mode::Scroll)
    } else {
        &&& g2.players@ == g1.players@.insert(
            g1.local_id,
            Player { id: cur.id, pos: resolved.0[0], vel: resolved.1[0], world: cur.world },
        )
        &&& r == StateResult::Keep
    })
}

/// A found portal hit names a portal of the table.
proof fn lemma_portal_hit_range(portals: Seq<(Vec2i, Vec2i)>, pos: Vec2i, i: int)
    ensures
        portal_hit_from(portals, pos, i) matches Some(j) ==> i <= j < portals.len(),
    decreases portals.len() - i,
{
    if 0 <= i < portals.len() && !(portals[i].0 == pos) {
        lemma_portal_hit_range(portals, pos, i + 1);
    }
}

/// The exploration mode: free movement over the growing chunked world.
pub struct Title();

/// The platforming mode: gravity, horizontal damping, double-jump.
pub struct Scroll();

/// The exploration frame's movement and boundary growth: direct position
/// stepping, camera follow past the deadzone, and one synthesized column
/// and/or row of chunks when the camera nears a boundary. Returns the
/// moved position and camera; the camera field itself is written later,
/// by the restitution step.
#[verifier::rlimit(100)]
fn explore_move_grow(g: &mut GameState, pos: Vec2i, input: &Input) -> (out: (Vec2i, Vec2i))
    requires
        wf_state(*old(g)),
        -0x0500_0000 <= pos.0 <= 0x0500_0000,
        -0x0500_0000 <= pos.1 <= 0x0500_0000,
        -0x0500_0000 <= old(g).camera.0 <= 0x0500_0000,
        -0x0500_0000 <= old(g).camera.1 <= 0x0500_0000,
        old(g).map_x_boundary <= COORD_LIMIT - CHUNK_SZ,
        old(g).map_y_boundary <= COORD_LIMIT - CHUNK_SZ,
    ensures
        ({
            let mv = spec_explore_move(
                pos,
                old(g).camera,
                old(g).map_x_boundary,
                old(g).map_y_boundary,
                *input,
            );
            let nx: int = if mv.2 != old(g).map_x_boundary {
                span_chunks(old(g).map_y_boundary as int)
            } else {
                0
            };
            let ny: int = if mv.3 != old(g).map_y_boundary {
                span_chunks(mv.2 as int)
            } else {
                0
            };
            let n0 = old(g).maps@.len() as int;
            let ms = final(g).maps@;
            &&& out == (mv.0, mv.1)
            &&& final(g).map_x_boundary == mv.2
            &&& final(g).map_y_boundary == mv.3
            &&& ms.len() == n0 + nx + ny
            &&& ms.subrange(0, n0) == old(g).maps@
            &&& (forall|k: int|
                n0 <= k < n0 + nx ==> {
                    let m = #[trigger] ms[k];
                    &&& wf_tilemap(m)
                    &&& m.dims == (8usize, 8usize)
                    &&& m.tileset.tiles@ == old(g).tt_tileset.tiles@
                    &&& m.position == Vec2i(old(g).map_x_boundary, ((k - n0) * 256) as i32)
                })
            &&& (forall|k: int|
                n0 + nx <= k < n0 + nx + ny ==> {
                    let m = #[trigger] ms[k];
                    &&& wf_tilemap(m)
                    &&& m.dims == (8usize, 8usize)
                    &&& m.tileset.tiles@ == old(g).tt_tileset.tiles@
                    &&& m.position == Vec2i(((k - n0 - nx) * 256) as i32, old(g).map_y_boundary)
                })
            &&& 0 < final(g).map_x_boundary <= COORD_LIMIT
            &&& 0 < final(g).map_y_boundary <= COORD_LIMIT
            &&& ms.len() >= 1
            &&& (forall|i: int| 0 <= i < ms.len() ==> wf_tilemap(#[trigger] ms[i]))
        }),
        final(g).players@ == old(g).players@,
        final(g).state_stack@ == old(g).state_stack@,
        final(g).camera == old(g).camera,
        final(g).game_data.num_jumps == old(g).game_data.num_jumps,
        final(g).game_data.restart == old(g).game_data.restart,
        final(g).game_data.score == old(g).game_data.score,
        final(g).game_data.speed_multiplier == old(g).game_data.speed_multiplier,
        final(g).game_data.portals@ == old(g).game_data.portals@,
        final(g).local_id == old(g).local_id,
        final(g).sizes@ == old(g).sizes@,
        final(g).level == old(g).level,
        final(g).background_pos == old(g).background_pos,
        final(g).side_map@ == old(g).side_map@,
        final(g).tt_tileset.tiles@ == old(g).tt_tileset.tiles@,
        final(g).game == old(g).game,
        final(g).spawn_point == old(g).spawn_point,
{
    let mut pos2 = pos;
    let mut cam = g.camera;
    let mut grow_x = false;
    let mut grow_y = false;
    if input.right_held {
        pos2 = Vec2i(pos2.0 + 5, pos2.1);
        if pos2.0 > 224 {
            cam = Vec2i(cam.0 + 5, cam.1);
        }
        if cam.0 >= g.map_x_boundary - WIDTH as i32 {
            grow_x = true;
        }
    }
    if input.left_held {
        if pos2.0 > 0 {
            pos2 = Vec2i(pos2.0 - 7, pos2.1);
        }
        if cam.0 > 0 {
            cam = Vec2i(cam.0 - 7, cam.1);
        }
    }
    if input.up_held {
        if pos2.1 > 0 {
            pos2 = Vec2i(pos2.0, pos2.1 - 7);
        }
        if cam.1 > 0 {
            cam = Vec2i(cam.0, cam.1 - 7);
        }
    }
    if input.down_held {
        pos2 = Vec2i(pos2.0, pos2.1 + 7);
        if pos2.1 > 224 {
            cam = Vec2i(cam.0, cam.1 + 7);
        }
        if cam.1 >= g.map_y_boundary - HEIGHT as i32 {
            grow_y = true;
        }
    }
    proof {
        let mv = spec_explore_move(
            pos,
            old(g).camera,
            old(g).map_x_boundary,
            old(g).map_y_boundary,
            *input,
        );
        assert(pos2 == mv.0 && cam == mv.1);
        assert(grow_x == (mv.2 != old(g).map_x_boundary));
        assert(grow_y == (mv.3 != old(g).map_y_boundary));
    }
    let ghost n0 = g.maps@.len() as int;
    if grow_x {
        synthesize_span(
            &mut g.maps,
            &g.tt_tileset,
            g.map_x_boundary,
            g.map_y_boundary,
            g.game,
            true,
        );
        g.map_x_boundary = g.map_x_boundary + CHUNK_SZ;
    }
    let ghost maps1 = g.maps@;
    let ghost nx = maps1.len() - n0;
    if grow_y {
        synthesize_span(
            &mut g.maps,
            &g.tt_tileset,
            g.map_y_boundary,
            g.map_x_boundary,
            g.game,
            false,
        );
        g.map_y_boundary = g.map_y_boundary + CHUNK_SZ;
    }
    proof {
        lemma_span_chunks_nonneg(old(g).map_y_boundary as int);
        lemma_span_chunks_nonneg(g.map_x_boundary as int);
        assert(maps1.len() >= n0);
        assert(g.maps@.len() >= maps1.len());
        assert(maps1.subrange(0, n0) =~= old(g).maps@);
        if grow_y {
            assert(g.maps@.subrange(0, maps1.len() as int) =~= maps1);
        } else {
            assert(g.maps@ =~= maps1);
            assert(g.maps@.subrange(0, maps1.len() as int) =~= maps1);
        }
        assert forall|i: int| 0 <= i < maps1.len() implies g.maps@[i] == maps1[i] by {
            assert(g.maps@.subrange(0, maps1.len() as int)[i] == g.maps@[i]);
        }
        assert(g.maps@.subrange(0, n0) =~= old(g).maps@);
        assert forall|i: int| 0 <= i < g.maps@.len() implies wf_tilemap(#[trigger] g.maps@[i]) by {
            if i < n0 {
                assert(g.maps@[i] == old(g).maps@[i]);
            } else if i < maps1.len() {
                assert(g.maps@[i] == maps1[i]);
            }
        }
        assert forall|k: int| n0 <= k < n0 + nx implies {
            let m = #[trigger] g.maps@[k];
            &&& wf_tilemap(m)
            &&& m.dims == (8usize, 8usize)
            &&& m.tileset.tiles@ == old(g).tt_tileset.tiles@
            &&& m.position == Vec2i(old(g).map_x_boundary, ((k - n0) * 256) as i32)
        } by {
            assert(g.maps@[k] == maps1[k]);
        }
        assert forall|k: int| maps1.len() <= k < g.maps@.len() implies {
            let m = #[trigger] g.maps@[k];
            &&& wf_tilemap(m)
            &&& m.dims == (8usize, 8usize)
            &&& m.tileset.tiles@ == old(g).tt_tileset.tiles@
            &&& m.position == Vec2i(((k - n0 - nx) * 256) as i32, old(g).map_y_boundary)
        } by {
        }
    }
    (pos2, cam)
}

/// The exploration frame's movement, boundary growth, contact pass and
/// restitution; everything of the frame but the registry write-back.
/// Returns the resolved position and velocity of the controlled entity.
#[verifier::rlimit(100)]
fn explore_physics(g: &mut GameState, pos: Vec2i, vel: Vec2i, input: &Input) -> (pv: (
    Vec2i,
    Vec2i,
))
    requires
        wf_state(*old(g)),
        -0x0500_0000 <= pos.0 <= 0x0500_0000,
        -0x0500_0000 <= pos.1 <= 0x0500_0000,
        -0x0010_0010 <= vel.0 <= 0x0010_0010,
        -0x0010_0010 <= vel.1 <= 0x0010_0010,
        -0x0500_0000 <= old(g).camera.0 <= 0x0500_0000,
        -0x0500_0000 <= old(g).camera.1 <= 0x0500_0000,
        old(g).map_x_boundary <= COORD_LIMIT - CHUNK_SZ,
        old(g).map_y_boundary <= COORD_LIMIT - CHUNK_SZ,
    ensures
        explore_phys_rel(*old(g), *final(g), pos, vel, *input),
        final(g).players@ == old(g).players@,
        final(g).state_stack@ == old(g).state_stack@,
        final(g).game_data.num_jumps <= 2 || final(g).game_data.num_jumps
            == old(g).game_data.num_jumps,
        0 < final(g).map_x_boundary <= COORD_LIMIT,
        0 < final(g).map_y_boundary <= COORD_LIMIT,
        final(g).maps@.len() >= 1,
        forall|i: int| 0 <= i < final(g).maps@.len() ==> wf_tilemap(#[trigger] final(g).maps@[i]),
        pv.0 == explore_resolved(*old(g), final(g).maps@, pos, vel, *input).0[0],
        pv.1 == explore_resolved(*old(g), final(g).maps@, pos, vel, *input).1[0],
        ({
            (-0x0400_0000 <= pos.0 <= 0x0400_0000 && -0x0400_0000 <= pos.1 <= 0x0400_0000
                && -0x0400_0000 <= old(g).camera.0 <= 0x0400_0000 && -0x0400_0000 <= old(
                g,
            ).camera.1 <= 0x0400_0000 && -0x0010_0000 <= vel.0 <= 0x0010_0000 && -0x0010_0000
                <= vel.1 <= 0x0010_0000) ==> {
                &&& -0x0500_0000 <= pv.0.0 <= 0x0500_0000
                &&& -0x0500_0000 <= pv.0.1 <= 0x0500_0000
                &&& -0x0010_0008 <= pv.1.0 <= 0x0010_0008
                &&& -0x0010_0008 <= pv.1.1 <= 0x0010_0008
                &&& -0x0500_0000 <= final(g).camera.0 <= 0x0500_0000
                &&& -0x0500_0000 <= final(g).camera.1 <= 0x0500_0000
            }
        }),
{
    let mvout = explore_move_grow(g, pos, input);
    let pos2 = mvout.0;
    let mut cam = mvout.1;
    let mut all_pos: Vec<Vec2i> = Vec::new();
    all_pos.push(pos2);
    let mut all_vel: Vec<Vec2i> = Vec::new();
    all_vel.push(vel);
    let mut contacts: Vec<Contact> = Vec::new();
    let mut nj = g.game_data.num_jumps;
    let mut rs = g.game_data.restart;
    gather_contacts(&all_pos, &g.sizes, &g.maps, &mut contacts, &mut nj, &mut rs);
    g.game_data.num_jumps = nj;
    g.game_data.restart = rs;
    let ghost ps_g = all_pos@;
    let ghost vs_g = all_vel@;
    let ghost c1_g = cam;
    let ghost cs_g = contacts@;
    proof {
        assert(ps_g =~= seq![pos2]);
        assert(vs_g =~= seq![vel]);
        assert(cs_g =~= all_pair_contacts(ps_g, g.sizes@) + all_tile_contacts(
            g.maps@,
            ps_g,
            g.sizes@,
        ));
        lemma_single_gather_wf(g.maps@, ps_g, g.sizes@);
        lemma_sort_desc_len(cs_g);
    }
    restitute(&mut all_pos, &g.sizes, &mut all_vel, &mut cam, &mut contacts);
    g.camera = cam;
    proof {
        lemma_resolve_upto_bounds(
            ps_g,
            vs_g,
            c1_g,
            g.sizes@,
            sort_desc(cs_g),
            sort_desc(cs_g).len() as int,
            0x0510_0010,
        );
        lemma_resolve_vel_bounds(
            ps_g,
            vs_g,
            c1_g,
            g.sizes@,
            sort_desc(cs_g),
            sort_desc(cs_g).len() as int,
            0x0010_0010,
        );
        if -0x0400_0000 <= pos.0 <= 0x0400_0000 && -0x0400_0000 <= pos.1 <= 0x0400_0000
            && -0x0400_0000 <= old(g).camera.0 <= 0x0400_0000 && -0x0400_0000 <= old(g).camera.1
            <= 0x0400_0000 && -0x0010_0000 <= vel.0 <= 0x0010_0000 && -0x0010_0000 <= vel.1
            <= 0x0010_0000 {
            lemma_resolve_upto_bounds(
                ps_g,
                vs_g,
                c1_g,
                g.sizes@,
                sort_desc(cs_g),
                sort_desc(cs_g).len() as int,
                0x0400_0010,
            );
            lemma_resolve_vel_bounds(
                ps_g,
                vs_g,
                c1_g,
                g.sizes@,
                sort_desc(cs_g),
                sort_desc(cs_g).len() as int,
                0x0010_0000,
            );
        }
    }
    let p2 = all_pos[0];
    let v2 = all_vel[0];
    (p2, v2)
}

impl Title {
    /// One exploration-mode frame; see `title_frame_rel` for what it does.
    pub fn update(&self, g: &mut GameState, input: &Input) -> (r: StateResult)
        requires
            wf_state(*old(g)),
            frame_in(*old(g), 0x0500_0000, 0x0010_0010),
            old(g).map_x_boundary <= COORD_LIMIT - CHUNK_SZ,
            old(g).map_y_boundary <= COORD_LIMIT - CHUNK_SZ,
        ensures
            title_frame_rel(*old(g), *final(g), *input, r),
            final(g).state_stack@ == old(g).state_stack@,
            wf_state(*final(g)),
            frame_in(*old(g), 0x0400_0000, 0x0010_0000) ==> frame_in(
                *final(g),
                0x0500_0000,
                0x0010_0008,
            ),
            input.p_held ==> r == StateResult::Swap(Mode::Scroll),
            !input.p_held ==> r == StateResult::Keep,
    {
        let cur = match g.players.get(&g.local_id) {
            Some(p) => *p,
            None => {
                proof {
                    assert(false);
                }
                Player::new()
            },
        };
        let pv = explore_physics(g, cur.pos, cur.vel, input);
        if input.p_held {
            g.players.insert(
                g.local_id,
                Player { id: cur.id, pos: Vec2i(50, 50), vel: Vec2i(0, 0), world: 1 },
            );
            StateResult::Swap(Mode::Scroll)
        } else {
            g.players.insert(
                g.local_id,
                Player { id: cur.id, pos: pv.0, vel: pv.1, world: cur.world },
            );
            StateResult::Keep
        }
    }
}

/// The platform frame's physics: velocity rules, integration, the
/// contact pass against the platform chunks, restitution, the restart
/// respawn, the portal check, and the hard-locked camera follow;
/// everything of the frame but the registry write-back. Returns the
/// final position and the resolved velocity of the controlled entity.
#[verifier::rlimit(100)]
fn platform_physics(g: &mut GameState, pos: Vec2i, vel: Vec2i, input: &Input) -> (pv: (
    Vec2i,
    Vec2i,
))
    requires
        wf_state(*old(g)),
        -0x0500_0000 <= pos.0 <= 0x0500_0000,
        -0x0500_0000 <= pos.1 <= 0x0500_0000,
        -0x0010_0010 <= vel.0 <= 0x0010_0010,
        -0x0010_0010 <= vel.1 <= 0x0010_0010,
        -0x0500_0000 <= old(g).camera.0 <= 0x0500_0000,
        -0x0500_0000 <= old(g).camera.1 <= 0x0500_0000,
    ensures
        ({
            let out = spec_scroll_frame(
                pos,
                vel,
                old(g).game_data.num_jumps,
                old(g).game_data.restart,
                old(g).spawn_point,
                old(g).game_data.portals@,
                old(g).sizes@,
                old(g).side_map@,
                old(g).camera,
                *input,
            );
            &&& pv == (out.0, out.1)
            &&& final(g).game_data.num_jumps == out.2
            &&& final(g).game_data.restart == out.3
            &&& final(g).spawn_point == out.4
            &&& final(g).camera == out.5
        }),
        final(g).level == 0,
        final(g).players@ == old(g).players@,
        final(g).state_stack@ == old(g).state_stack@,
        final(g).game_data.num_jumps <= 2 || final(g).game_data.num_jumps
            == old(g).game_data.num_jumps,
        -PLAY_LIMIT <= final(g).spawn_point.0 <= PLAY_LIMIT,
        -PLAY_LIMIT <= final(g).spawn_point.1 <= PLAY_LIMIT,
        final(g).game_data.score == old(g).game_data.score,
        final(g).game_data.speed_multiplier == old(g).game_data.speed_multiplier,
        final(g).game_data.portals@ == old(g).game_data.portals@,
        final(g).local_id == old(g).local_id,
        final(g).sizes@ == old(g).sizes@,
        final(g).background_pos == old(g).background_pos,
        final(g).maps@ == old(g).maps@,
        final(g).side_map@ == old(g).side_map@,
        final(g).map_x_boundary == old(g).map_x_boundary,
        final(g).map_y_boundary == old(g).map_y_boundary,
        final(g).tt_tileset.tiles@ == old(g).tt_tileset.tiles@,
        final(g).game == old(g).game,
        ({
            (-0x0400_0000 <= pos.0 <= 0x0400_0000 && -0x0400_0000 <= pos.1 <= 0x0400_0000
                && -0x0400_0000 <= old(g).camera.0 <= 0x0400_0000 && -0x0400_0000 <= old(
                g,
            ).camera.1 <= 0x0400_0000 && -0x0010_0000 <= vel.0 <= 0x0010_0000 && -0x0010_0000
                <= vel.1 <= 0x0010_0000) ==> {
                &&& -0x0500_0000 <= pv.0.0 <= 0x0500_0000
                &&& -0x0500_0000 <= pv.0.1 <= 0x0500_0000
                &&& -0x0010_0008 <= pv.1.0 <= 0x0010_0008
                &&& -0x0010_0008 <= pv.1.1 <= 0x0010_0008
                &&& -0x0500_0000 <= final(g).camera.0 <= 0x0500_0000
                &&& -0x0500_0000 <= final(g).camera.1 <= 0x0500_0000
            }
        }),
{
    g.level = 0;
    let vn = platform_velocity(vel, g.game_data.num_jumps, input);
    let v1 = vn.0;
    let p1 = Vec2i(pos.0 + v1.0, pos.1 + v1.1);
    let mut all_pos: Vec<Vec2i> = Vec::new();
    all_pos.push(p1);
    let mut all_vel: Vec<Vec2i> = Vec::new();
    all_vel.push(v1);
    let mut contacts: Vec<Contact> = Vec::new();
    let mut nj = vn.1;
    let mut rs = g.game_data.restart;
    gather_contacts(&all_pos, &g.sizes, &g.side_map, &mut contacts, &mut nj, &mut rs);
    g.game_data.num_jumps = nj;
    g.game_data.restart = rs;
    let ghost ps_g = all_pos@;
    let ghost vs_g = all_vel@;
    let ghost c1_g = g.camera;
    let ghost cs_g = contacts@;
    proof {
        assert(ps_g =~= seq![p1]);
        assert(vs_g =~= seq![v1]);
        assert(cs_g =~= all_pair_contacts(ps_g, g.sizes@) + all_tile_contacts(
            g.side_map@,
            ps_g,
            g.sizes@,
        ));
        lemma_single_gather_wf(g.side_map@, ps_g, g.sizes@);
        lemma_sort_desc_len(cs_g);
    }
    let mut cam = g.camera;
    restitute(&mut all_pos, &g.sizes, &mut all_vel, &mut cam, &mut contacts);
    g.camera = cam;
    proof {
        lemma_resolve_upto_bounds(
            ps_g,
            vs_g,
            c1_g,
            g.sizes@,
            sort_desc(cs_g),
            sort_desc(cs_g).len() as int,
            0x0510_0012,
        );
        lemma_resolve_vel_bounds(
            ps_g,
            vs_g,
            c1_g,
            g.sizes@,
            sort_desc(cs_g),
            sort_desc(cs_g).len() as int,
            0x0010_0010,
        );
        if -0x0400_0000 <= pos.0 <= 0x0400_0000 && -0x0400_0000 <= pos.1 <= 0x0400_0000
            && -0x0400_0000 <= old(g).camera.0 <= 0x0400_0000 && -0x0400_0000 <= old(g).camera.1
            <= 0x0400_0000 && -0x0010_0000 <= vel.0 <= 0x0010_0000 && -0x0010_0000 <= vel.1
            <= 0x0010_0000 {
            lemma_resolve_upto_bounds(
                ps_g,
                vs_g,
                c1_g,
                g.sizes@,
                sort_desc(cs_g),
                sort_desc(cs_g).len() as int,
                0x0410_0002,
            );
            lemma_resolve_vel_bounds(
                ps_g,
                vs_g,
                c1_g,
                g.sizes@,
                sort_desc(cs_g),
                sort_desc(cs_g).len() as int,
                0x0010_0000,
            );
        }
    }
    let mut p2 = all_pos[0];
    let v2 = all_vel[0];
    if g.game_data.restart {
        p2 = g.spawn_point;
        g.game_data.restart = false;
    }
    proof {
        lemma_portal_hit_range(g.game_data.portals@, p2, 0);
    }
    let pp = apply_portals(&g.game_data.portals, p2, g.spawn_point);
    g.spawn_point = pp.1;
    g.camera = Vec2i(pp.0.0 - (WIDTH / 2) as i32, pp.0.1 - (HEIGHT / 2) as i32);
    (pp.0, v2)
}

impl Scroll {
    /// One platform-mode frame; see `scroll_frame_rel` for what it does.
    pub fn update(&self, g: &mut GameState, input: &Input) -> (r: StateResult)
        requires
            wf_state(*old(g)),
            frame_in(*old(g), 0x0500_0000, 0x0010_0010),
        ensures
            scroll_frame_rel(*old(g), *final(g), *input, r),
            final(g).state_stack@ == old(g).state_stack@,
            wf_state(*final(g)),
            frame_in(*old(g), 0x0400_0000, 0x0010_0000) ==> frame_in(
                *final(g),
                0x0500_0000,
                0x0010_0008,
            ),
            input.x_held ==> r == StateResult::Swap(Mode::Title),
            !input.x_held ==> r == StateResult::Keep,
    {
        let cur = match g.players.get(&g.local_id) {
            Some(p) => *p,
            None => {
                proof {
                    assert(false);
                }
                Player::new()
            },
        };
        let pv = platform_physics(g, cur.pos, cur.vel, input);
        if input.x_held {
            g.players.insert(
                g.local_id,
                Player { id: cur.id, pos: pv.0, vel: Vec2i(0, 0), world: 0 },
            );
            StateResult::Swap(Mode::Title)
        } else {
            g.players.insert(
                g.local_id,
                Player { id: cur.id, pos: pv.0, vel: pv.1, world: cur.world },
            );
            StateResult::Keep
        }
    }
}

/// Applies the per-frame transition to the top of the mode stack,
/// repeating it on a newly swapped-in mode, until a mode asks to be
/// kept. With the enter and exit keys not both held, at most one swap
/// can happen per frame.
#[verifier::rlimit(100)]
pub fn process_input(g: &mut GameState, input: &Input)
    requires
        wf_state(*old(g)),
        frame_in(*old(g), 0x0400_0000, 0x0010_0000),
        old(g).state_stack@.len() >= 1,
        old(g).map_x_boundary <= COORD_LIMIT - CHUNK_SZ,
        old(g).map_y_boundary <= COORD_LIMIT - CHUNK_SZ,
        !(input.p_held && input.x_held),
    ensures
        wf_state(*final(g)),
        final(g).state_stack@.len() == old(g).state_stack@.len(),
        ({
            let top = old(g).state_stack@.last();
            &&& (top == Mode::Title && !input.p_held ==> title_frame_rel(
                *old(g),
                *final(g),
                *input,
                StateResult::Keep,
            ) && final(g).state_stack@ == old(g).state_stack@)
            &&& (top == Mode::Scroll && !input.x_held ==> scroll_frame_rel(
                *old(g),
                *final(g),
                *input,
                StateResult::Keep,
            ) && final(g).state_stack@ == old(g).state_stack@)
            &&& (top == Mode::Title && input.p_held ==> {
                &&& (exists|mid: GameState|
                    (#[trigger] title_frame_rel(
                        *old(g),
                        mid,
                        *input,
                        StateResult::Swap(Mode::Scroll),
                    ) && scroll_frame_rel(mid, *final(g), *input, StateResult::Keep)))
                &&& final(g).state_stack@ == old(g).state_stack@.update(
                    old(g).state_stack@.len() - 1,
                    Mode::Scroll,
                )
            })
            &&& (top == Mode::Scroll && input.x_held ==> {
                &&& (exists|mid: GameState|
                    (#[trigger] scroll_frame_rel(
                        *old(g),
                        mid,
                        *input,
                        StateResult::Swap(Mode::Title),
                    ) && title_frame_rel(mid, *final(g), *input, StateResult::Keep)))
                &&& final(g).state_stack@ == old(g).state_stack@.update(
                    old(g).state_stack@.len() - 1,
                    Mode::Title,
                )
            })
        }),
{
    let top = match g.state_stack.pop() {
        Some(m) => m,
        None => {
            proof {
                assert(false);
            }
            Mode::Title
        },
    };
    let r1 = match top {
        Mode::Title => Title().update(g, input),
        Mode::Scroll => Scroll().update(g, input),
    };
    match r1 {
        StateResult::Keep => {
            g.state_stack.push(top);
            proof {
                assert(g.state_stack@ =~= old(g).state_stack@);
            }
        },
        StateResult::Swap(m) => {
            let ghost mid = *g;
            let r2 = match m {
                Mode::Title => Title().update(g, input),
                Mode::Scroll => Scroll().update(g, input),
            };
            proof {
                assert(r2 == StateResult::Keep);
            }
            g.state_stack.push(m);
            proof {
                assert(g.state_stack@ =~= old(g).state_stack@.update(
                    old(g).state_stack@.len() - 1,
                    m,
                ));
                if top == Mode::Title {
                    assert(title_frame_rel(*old(g), mid, *input, StateResult::Swap(Mode::Scroll)));
                    assert(scroll_frame_rel(mid, *g, *input, StateResult::Keep));
                } else {
                    assert(scroll_frame_rel(*old(g), mid, *input, StateResult::Swap(Mode::Title)));
                    assert(title_frame_rel(mid, *g, *input, StateResult::Keep));
                }
            }
        },
        StateResult::Remove => {
            proof {
                assert(false);
            }
        },
        StateResult::Push(_) => {
            proof {
                assert(false);
            }
        },
    }
}

/// Jump-count law: the jump counter stays in the double-jump range; it
/// is incremented exactly on a fresh launch while below two jumps, reset
/// to zero exactly when a bottom corner of the integrated position rests
/// on a `jump_reset` tile, and never otherwise changed by a platform
/// frame.
pub proof fn lemma_jump_counter(
    pos: Vec2i,
    vel: Vec2i,
    num_jumps: usize,
    restart: bool,
    spawn: Vec2i,
    portals: Seq<(Vec2i, Vec2i)>,
    sizes: Seq<(usize, usize)>,
    side: Seq<Tilemap>,
    cam: Vec2i,
    input: Input,
)
    requires
        num_jumps <= 2,
    ensures
        ({
            let launch = input.up_held && num_jumps < 2;
            let nj1 = spec_platform_velocity(vel, num_jumps, input).1;
            let v1 = spec_platform_velocity(vel, num_jumps, input).0;
            let p1 = Vec2i((pos.0 + v1.0) as i32, (pos.1 + v1.1) as i32);
            let out = spec_scroll_frame(
                pos,
                vel,
                num_jumps,
                restart,
                spawn,
                portals,
                sizes,
                side,
                cam,
                input,
            );
            &&& nj1 == (if launch {
                (num_jumps + 1) as usize
            } else {
                num_jumps
            })
            &&& nj1 <= 2
            &&& out.2 == (if any_jump_reset(side, seq![p1], sizes) {
                0usize
            } else {
                nj1
            })
            &&& out.2 <= 2
        }),
{
}

/// A portal scan from `k` finds `i` when `i`'s entry matches and no
/// earlier entry at or after `k` does.
proof fn lemma_portal_hit_first(portals: Seq<(Vec2i, Vec2i)>, pos: Vec2i, k: int, i: int)
    requires
        0 <= k <= i < portals.len(),
        portals[i].0 == pos,
        forall|j: int| k <= j < i ==> (#[trigger] portals[j]).0 != pos,
    ensures
        portal_hit_from(portals, pos, k) == Some(i),
    decreases i - k,
{
    if k < i {
        lemma_portal_hit_first(portals, pos, k + 1, i);
    }
}

/// A portal scan from `k` finds nothing when no entry at or after `k`
/// matches.
proof fn lemma_portal_hit_none(portals: Seq<(Vec2i, Vec2i)>, pos: Vec2i, k: int)
    requires
        forall|j: int| k <= j < portals.len() ==> (#[trigger] portals[j]).0 != pos,
    ensures
        portal_hit_from(portals, pos, k) is None,
    decreases portals.len() - k,
{
    if 0 <= k < portals.len() {
        lemma_portal_hit_none(portals, pos, k + 1);
    }
}

/// Portal exactness law: a position exactly equal to the entry of the
/// first matching registered portal is relocated to exactly the paired
/// exit, and the spawn point updates to that exit; a position matching
/// no entry leaves position and spawn point untouched.
pub proof fn lemma_portal_exactness(
    portals: Seq<(Vec2i, Vec2i)>,
    pos: Vec2i,
    spawn: Vec2i,
    i: int,
)
    requires
        0 <= i < portals.len(),
        portals[i].0 == pos,
        forall|j: int| 0 <= j < i ==> (#[trigger] portals[j]).0 != pos,
    ensures
        spec_apply_portals(portals, pos, spawn) == (portals[i].1, portals[i].1),
{
    lemma_portal_hit_first(portals, pos, 0, i);
}

/// The portal-miss half of the exactness law.
pub proof fn lemma_portal_miss(portals: Seq<(Vec2i, Vec2i)>, pos: Vec2i, spawn: Vec2i)
    requires
        forall|j: int| 0 <= j < portals.len() ==> (#[trigger] portals[j]).0 != pos,
    ensures
        spec_apply_portals(portals, pos, spawn) == (pos, spawn),
{
    lemma_portal_hit_none(portals, pos, 0);
}

/// Restart law: the flag raised during contact generation is consumed by
/// the very next respawn step — the platform frame always ends with the
/// flag down; when it was up the entity stands at the current spawn
/// point (then subject to the portal check, like any position), and when
/// it was down the resolved position passes through untouched. In
/// particular, with no portal entry at the spawn point, a raised flag
/// ends the frame exactly at the spawn point, spawn point unchanged.
pub proof fn lemma_restart_semantics(
    pos: Vec2i,
    vel: Vec2i,
    num_jumps: usize,
    restart: bool,
    spawn: Vec2i,
    portals: Seq<(Vec2i, Vec2i)>,
    sizes: Seq<(usize, usize)>,
    side: Seq<Tilemap>,
    cam: Vec2i,
    input: Input,
)
    ensures
        ({
            let v1 = spec_platform_velocity(vel, num_jumps, input).0;
            let p1 = Vec2i((pos.0 + v1.0) as i32, (pos.1 + v1.1) as i32);
            let raised = restart || any_restart(side, seq![p1], sizes);
            let contacts = all_pair_contacts(seq![p1], sizes) + all_tile_contacts(
                side,
                seq![p1],
                sizes,
            );
            let sorted = sort_desc(contacts);
            let resolved = resolve_upto(
                seq![p1],
                seq![v1],
                cam,
                sizes,
                sorted,
                sorted.len() as int,
            );
            let out = spec_scroll_frame(
                pos,
                vel,
                num_jumps,
                restart,
                spawn,
                portals,
                sizes,
                side,
                cam,
                input,
            );
            &&& out.3 == false
            &&& (raised ==> (out.0, out.4) == spec_apply_portals(portals, spawn, spawn))
            &&& (!raised ==> (out.0, out.4) == spec_apply_portals(portals, resolved.0[0], spawn))
            &&& (raised && (forall|j: int|
                0 <= j < portals.len() ==> (#[trigger] portals[j]).0 != spawn) ==> out.0 == spawn
                && out.4 == spawn)
        }),
{
    let v1 = spec_platform_velocity(vel, num_jumps, input).0;
    let p1 = Vec2i((pos.0 + v1.0) as i32, (pos.1 + v1.1) as i32);
    let raised = restart || any_restart(side, seq![p1], sizes);
    if raised && (forall|j: int| 0 <= j < portals.len() ==> (#[trigger] portals[j]).0 != spawn) {
        lemma_portal_miss(portals, spawn, spawn);
    }
}

} // verus!
