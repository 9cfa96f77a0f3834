//! Contact generation and restitution for axis-aligned rectangles:
//! entity-against-entity and entity-corner-against-solid-tile overlap
//! events, and the position/velocity correction that removes them.

use vstd::prelude::*;
use crate::tiles::{
    corner_tile_and_rect, locate_chunk, spec_locate_chunk, wf_tilemap, Tile, Tilemap, COORD_LIMIT,
};
use crate::types::{Rect, Vec2i};

verus! {

/// A collider taking part in a contact: either a dynamic entity referenced
/// by its index in the parallel position/size arrays, or a tile snapshot
/// carrying its flags and world-space bounds by value.
#[derive(Clone, Copy, PartialEq, Eq, Structural, Debug)]
pub enum ColliderID {
    Dynamic(usize),
    Tile(Tile, Rect),
}

/// An overlap event. `mtv` is the unsigned overlap magnitude on each axis
/// (not yet signed or directional). `a` is always a `Dynamic` collider by
/// construction.
#[derive(Clone, Copy, PartialEq, Eq, Debug)]
pub struct Contact {
    pub a: ColliderID,
    pub b: ColliderID,
    pub mtv: (i32, i32),
}

/// Signed overlap of the two rectangles' horizontal projections:
/// non-negative exactly when they overlap or touch on that axis.
pub open spec fn overlap_x(r1: Rect, r2: Rect) -> int {
    vstd::math::min(r1.x + r1.w, r2.x + r2.w) - vstd::math::max(r1.x as int, r2.x as int)
}

/// Signed overlap of the two rectangles' vertical projections.
pub open spec fn overlap_y(r1: Rect, r2: Rect) -> int {
    vstd::math::min(r1.y + r1.h, r2.y + r2.h) - vstd::math::max(r1.y as int, r2.y as int)
}

/// Two rectangles touch when their projections overlap, or are adjacent
/// with zero gap, on both axes.
pub open spec fn rects_touch(r1: Rect, r2: Rect) -> bool {
    overlap_x(r1, r2) >= 0 && overlap_y(r1, r2) >= 0
}

/// The per-axis unsigned overlap magnitudes, present exactly when the
/// rectangles touch.
pub open spec fn spec_rect_displacement(r1: Rect, r2: Rect) -> Option<(i32, i32)> {
    if rects_touch(r1, r2) {
        Some((overlap_x(r1, r2) as i32, overlap_y(r1, r2) as i32))
    } else {
        None
    }
}

/// The overlap magnitude on an axis never exceeds either extent.
pub proof fn lemma_overlap_bounds(r1: Rect, r2: Rect)
    ensures
        overlap_x(r1, r2) <= r1.w && overlap_x(r1, r2) <= r2.w,
        overlap_y(r1, r2) <= r1.h && overlap_y(r1, r2) <= r2.h,
{
}

/// Whether two rectangles overlap or touch (zero gap) on both axes.
pub fn rect_touching(r1: Rect, r2: Rect) -> (r: bool)
    ensures
        r == rects_touch(r1, r2),
{
    (r1.x as i64) <= (r2.x as i64) + (r2.w as i64) && (r2.x as i64) <= (r1.x as i64) + (r1.w
        as i64) && (r1.y as i64) <= (r2.y as i64) + (r2.h as i64) && (r2.y as i64) <= (r1.y
        as i64) + (r1.h as i64)
}

/// The unsigned overlap magnitude of two rectangles on each axis, or
/// `None` when they do not even touch. Both returned components are
/// non-negative; a component of 0 means zero-gap adjacency on that axis.
pub fn rect_displacement(r1: Rect, r2: Rect) -> (res: Option<(i32, i32)>)
    ensures
        res == spec_rect_displacement(r1, r2),
        res matches Some(d) ==> d.0 >= 0 && d.1 >= 0,
{
    let r1r: i64 = r1.x as i64 + r1.w as i64;
    let r2r: i64 = r2.x as i64 + r2.w as i64;
    let r1b: i64 = r1.y as i64 + r1.h as i64;
    let r2b: i64 = r2.y as i64 + r2.h as i64;
    let minr: i64 = if r1r < r2r { r1r } else { r2r };
    let maxl: i64 = if r1.x as i64 > r2.x as i64 { r1.x as i64 } else { r2.x as i64 };
    let minb: i64 = if r1b < r2b { r1b } else { r2b };
    let maxt: i64 = if r1.y as i64 > r2.y as i64 { r1.y as i64 } else { r2.y as i64 };
    let xo: i64 = minr - maxl;
    let yo: i64 = minb - maxt;
    if xo >= 0 && yo >= 0 {
        proof {
            lemma_overlap_bounds(r1, r2);
        }
        Some((xo as i32, yo as i32))
    } else {
        None
    }
}

/// The world-space bounding rectangle of an entity of the given position
/// and size.
pub open spec fn entity_rect(pos: Vec2i, size: (usize, usize)) -> Rect {
    Rect { x: pos.0, y: pos.1, w: size.0 as u16, h: size.1 as u16 }
}

/// Top-left corner sample point of an entity.
pub open spec fn corner_tl(pos: Vec2i, size: (usize, usize)) -> Vec2i {
    pos
}

/// Top-right corner sample point.
pub open spec fn corner_tr(pos: Vec2i, size: (usize, usize)) -> Vec2i {
    Vec2i((pos.0 + size.0) as i32, pos.1)
}

/// Bottom-left corner sample point. The vertical offset deliberately uses
/// the entity's *width*, giving a square sampling footprint even for
/// non-square entities; correcting it would change the gameplay-visible
/// collision shape, so the quirk is documented rather than fixed.
pub open spec fn corner_bl(pos: Vec2i, size: (usize, usize)) -> Vec2i {
    Vec2i(pos.0, (pos.1 + size.0) as i32)
}

/// Bottom-right corner sample point (square footprint, as `corner_bl`).
pub open spec fn corner_br(pos: Vec2i, size: (usize, usize)) -> Vec2i {
    Vec2i((pos.0 + size.0) as i32, (pos.1 + size.0) as i32)
}

/// The chunk an entity's corner samples resolve against: the first chunk
/// whose bounding square contains all four corners, with chunk 0 as the
/// fallback.
pub open spec fn entity_chunk(chunks: Seq<Tilemap>, pos: Vec2i, size: (usize, usize)) -> Tilemap {
    chunks[spec_locate_chunk(
        chunks,
        corner_tl(pos, size),
        corner_tr(pos, size),
        corner_bl(pos, size),
        corner_br(pos, size),
    )]
}

/// The single dynamic-dynamic contact of an (ordered) entity pair, when
/// their rectangles overlap by a positive amount on both axes.
pub open spec fn pair_contact(
    positions: Seq<Vec2i>,
    sizes: Seq<(usize, usize)>,
    ai: int,
    bi: int,
) -> Seq<Contact> {
    let ar = entity_rect(positions[ai], sizes[ai]);
    let br = entity_rect(positions[bi], sizes[bi]);
    if overlap_x(ar, br) > 0 && overlap_y(ar, br) > 0 {
        seq![
            Contact {
                a: ColliderID::Dynamic(ai as usize),
                b: ColliderID::Dynamic(bi as usize),
                mtv: (overlap_x(ar, br) as i32, overlap_y(ar, br) as i32),
            },
        ]
    } else {
        seq![]
    }
}

/// Contacts of entity `ai` against entities of index in `[ai + 1, bi)`.
pub open spec fn pair_row_upto(
    positions: Seq<Vec2i>,
    sizes: Seq<(usize, usize)>,
    ai: int,
    bi: int,
) -> Seq<Contact>
    decreases bi,
{
    if ai < 0 || bi <= ai + 1 {
        seq![]
    } else {
        pair_row_upto(positions, sizes, ai, bi - 1) + pair_contact(positions, sizes, ai, bi - 1)
    }
}

/// Dynamic-dynamic contacts of every ordered pair whose first index is
/// below `ai`, in the order the pass emits them.
pub open spec fn pair_contacts_upto(
    positions: Seq<Vec2i>,
    sizes: Seq<(usize, usize)>,
    ai: int,
) -> Seq<Contact>
    decreases ai,
{
    if ai <= 0 {
        seq![]
    } else {
        pair_contacts_upto(positions, sizes, ai - 1) + pair_row_upto(
            positions,
            sizes,
            ai - 1,
            positions.len() as int,
        )
    }
}

/// All dynamic-dynamic contacts of the pass, in emission order.
pub open spec fn all_pair_contacts(positions: Seq<Vec2i>, sizes: Seq<(usize, usize)>) -> Seq<
    Contact,
> {
    pair_contacts_upto(positions, sizes, positions.len() as int)
}

/// The contact one corner sample contributes: present when the corner's
/// tile is solid and the entity's full rectangle overlaps the tile's
/// bounds by a positive amount on both axes.
pub open spec fn tile_corner_contact(sprite: Rect, ei: int, t: Tile, tr: Rect) -> Seq<Contact> {
    if t.solid && overlap_x(sprite, tr) > 0 && overlap_y(sprite, tr) > 0 {
        seq![
            Contact {
                a: ColliderID::Dynamic(ei as usize),
                b: ColliderID::Tile(t, tr),
                mtv: (overlap_x(sprite, tr) as i32, overlap_y(sprite, tr) as i32),
            },
        ]
    } else {
        seq![]
    }
}

/// Dynamic-tile contacts of entity `ei`, sampling its four corners in the
/// order top-left, top-right, bottom-left, bottom-right against the chunk
/// the entity resolves to.
pub open spec fn entity_tile_contacts(
    chunks: Seq<Tilemap>,
    positions: Seq<Vec2i>,
    sizes: Seq<(usize, usize)>,
    ei: int,
) -> Seq<Contact> {
    let pos = positions[ei];
    let size = sizes[ei];
    let m = entity_chunk(chunks, pos, size);
    let sprite = entity_rect(pos, size);
    let tl = corner_tile_and_rect(m, corner_tl(pos, size));
    let tr = corner_tile_and_rect(m, corner_tr(pos, size));
    let bl = corner_tile_and_rect(m, corner_bl(pos, size));
    let br = corner_tile_and_rect(m, corner_br(pos, size));
    tile_corner_contact(sprite, ei, tl.0, tl.1) + tile_corner_contact(sprite, ei, tr.0, tr.1)
        + tile_corner_contact(sprite, ei, bl.0, bl.1) + tile_corner_contact(sprite, ei, br.0, br.1)
}

/// Dynamic-tile contacts of the entities of index below `ei`, in emission
/// order.
pub open spec fn tile_contacts_upto(
    chunks: Seq<Tilemap>,
    positions: Seq<Vec2i>,
    sizes: Seq<(usize, usize)>,
    ei: int,
) -> Seq<Contact>
    decreases ei,
{
    if ei <= 0 {
        seq![]
    } else {
        tile_contacts_upto(chunks, positions, sizes, ei - 1) + entity_tile_contacts(
            chunks,
            positions,
            sizes,
            ei - 1,
        )
    }
}

/// All dynamic-tile contacts of the pass, in emission order.
pub open spec fn all_tile_contacts(
    chunks: Seq<Tilemap>,
    positions: Seq<Vec2i>,
    sizes: Seq<(usize, usize)>,
) -> Seq<Contact> {
    tile_contacts_upto(chunks, positions, sizes, positions.len() as int)
}

/// Whether entity `ei`'s top-left corner rests on a `restart` tile.
pub open spec fn entity_tl_restart(
    chunks: Seq<Tilemap>,
    positions: Seq<Vec2i>,
    sizes: Seq<(usize, usize)>,
    ei: int,
) -> bool {
    let pos = positions[ei];
    let size = sizes[ei];
    corner_tile_and_rect(entity_chunk(chunks, pos, size), corner_tl(pos, size)).0.restart
}

/// Whether either bottom corner of entity `ei` rests on a `jump_reset`
/// tile.
pub open spec fn entity_bottom_jump_reset(
    chunks: Seq<Tilemap>,
    positions: Seq<Vec2i>,
    sizes: Seq<(usize, usize)>,
    ei: int,
) -> bool {
    let pos = positions[ei];
    let size = sizes[ei];
    let m = entity_chunk(chunks, pos, size);
    corner_tile_and_rect(m, corner_bl(pos, size)).0.jump_reset || corner_tile_and_rect(
        m,
        corner_br(pos, size),
    ).0.jump_reset
}

/// Whether some entity of index below `n` triggers a restart this pass.
pub open spec fn restart_upto(
    chunks: Seq<Tilemap>,
    positions: Seq<Vec2i>,
    sizes: Seq<(usize, usize)>,
    n: int,
) -> bool
    decreases n,
{
    if n <= 0 {
        false
    } else {
        restart_upto(chunks, positions, sizes, n - 1) || entity_tl_restart(
            chunks,
            positions,
            sizes,
            n - 1,
        )
    }
}

/// Whether some entity of index below `n` rests a bottom corner on a
/// `jump_reset` tile this pass.
pub open spec fn jump_reset_upto(
    chunks: Seq<Tilemap>,
    positions: Seq<Vec2i>,
    sizes: Seq<(usize, usize)>,
    n: int,
) -> bool
    decreases n,
{
    if n <= 0 {
        false
    } else {
        jump_reset_upto(chunks, positions, sizes, n - 1) || entity_bottom_jump_reset(
            chunks,
            positions,
            sizes,
            n - 1,
        )
    }
}

/// Whether any entity's top-left corner rests on a `restart` tile.
pub open spec fn any_restart(
    chunks: Seq<Tilemap>,
    positions: Seq<Vec2i>,
    sizes: Seq<(usize, usize)>,
) -> bool {
    restart_upto(chunks, positions, sizes, positions.len() as int)
}

/// Whether any entity rests a bottom corner on a `jump_reset` tile.
pub open spec fn any_jump_reset(
    chunks: Seq<Tilemap>,
    positions: Seq<Vec2i>,
    sizes: Seq<(usize, usize)>,
) -> bool {
    jump_reset_upto(chunks, positions, sizes, positions.len() as int)
}

/// A position that keeps every corner-sample and overlap computation of
/// the passes inside `i32`.
pub open spec fn pos_in_range(p: Vec2i) -> bool {
    -COORD_LIMIT < p.0 <= COORD_LIMIT - 0x10000 && -COORD_LIMIT < p.1 <= COORD_LIMIT - 0x10000
}

/// A size whose extents fit the 16-bit rectangle fields exactly.
pub open spec fn size_in_range(s: (usize, usize)) -> bool {
    s.0 <= 0xffff && s.1 <= 0xffff
}

/// Generates the frame's unordered contact list: one dynamic-dynamic
/// contact per overlapping entity pair, and one dynamic-tile contact per
/// entity corner resting on a solid, positively overlapping tile. As a
/// side effect of the same tile sampling, a `restart` tile under a
/// top-left corner raises the restart flag, and a `jump_reset` tile under
/// a bottom corner clears the jump counter.
pub fn gather_contacts(
    positions: &Vec<Vec2i>,
    sizes: &Vec<(usize, usize)>,
    chunks: &Vec<Tilemap>,
    into: &mut Vec<Contact>,
    num_jumps: &mut usize,
    restart: &mut bool,
)
    requires
        positions@.len() == sizes@.len(),
        chunks@.len() >= 1,
        forall|i: int| 0 <= i < chunks@.len() ==> wf_tilemap(#[trigger] chunks@[i]),
        forall|i: int| 0 <= i < positions@.len() ==> pos_in_range(#[trigger] positions@[i]),
        forall|i: int| 0 <= i < sizes@.len() ==> size_in_range(#[trigger] sizes@[i]),
    ensures
        final(into)@ == old(into)@ + all_pair_contacts(positions@, sizes@) + all_tile_contacts(
            chunks@,
            positions@,
            sizes@,
        ),
        *final(num_jumps) == if any_jump_reset(chunks@, positions@, sizes@) {
            0usize
        } else {
            *old(num_jumps)
        },
        *final(restart) == (*old(restart) || any_restart(chunks@, positions@, sizes@)),
{
    let n = positions.len();
    // Dynamic-dynamic pass over every unordered entity pair.
    let mut ai: usize = 0;
    while ai < n
        invariant
            n == positions@.len() == sizes@.len(),
            ai <= n,
            forall|i: int| 0 <= i < positions@.len() ==> pos_in_range(#[trigger] positions@[i]),
            forall|i: int| 0 <= i < sizes@.len() ==> size_in_range(#[trigger] sizes@[i]),
            into@ == old(into)@ + pair_contacts_upto(positions@, sizes@, ai as int),
        decreases n - ai,
    {
        let mut bi: usize = ai + 1;
        while bi < n
            invariant
                n == positions@.len() == sizes@.len(),
                ai < n,
                ai + 1 <= bi <= n,
                forall|i: int| 0 <= i < positions@.len() ==> pos_in_range(#[trigger] positions@[i]),
                forall|i: int| 0 <= i < sizes@.len() ==> size_in_range(#[trigger] sizes@[i]),
                into@ == old(into)@ + pair_contacts_upto(positions@, sizes@, ai as int)
                    + pair_row_upto(positions@, sizes@, ai as int, bi as int),
            decreases n - bi,
        {
            let apos = positions[ai];
            let asize = sizes[ai];
            let bpos = positions[bi];
            let bsize = sizes[bi];
            let arect = Rect { x: apos.0, y: apos.1, w: asize.0 as u16, h: asize.1 as u16 };
            let brect = Rect { x: bpos.0, y: bpos.1, w: bsize.0 as u16, h: bsize.1 as u16 };
            match rect_displacement(arect, brect) {
                Some(disp) => {
                    if disp.0 > 0 && disp.1 > 0 {
                        into.push(
                            Contact {
                                a: ColliderID::Dynamic(ai),
                                b: ColliderID::Dynamic(bi),
                                mtv: disp,
                            },
                        );
                    }
                },
                None => {},
            }
            proof {
                assert(into@ =~= old(into)@ + pair_contacts_upto(positions@, sizes@, ai as int)
                    + pair_row_upto(positions@, sizes@, ai as int, bi as int + 1));
            }
            bi += 1;
        }
        ai += 1;
    }
    // Dynamic-tile pass: sample each entity's four corners against the
    // chunk it resolves to; react to restart and jump-reset flags.
    let mut ei: usize = 0;
    while ei < n
        invariant
            n == positions@.len() == sizes@.len(),
            ei <= n,
            chunks@.len() >= 1,
            forall|i: int| 0 <= i < chunks@.len() ==> wf_tilemap(#[trigger] chunks@[i]),
            forall|i: int| 0 <= i < positions@.len() ==> pos_in_range(#[trigger] positions@[i]),
            forall|i: int| 0 <= i < sizes@.len() ==> size_in_range(#[trigger] sizes@[i]),
            into@ == old(into)@ + pair_contacts_upto(positions@, sizes@, n as int)
                + tile_contacts_upto(chunks@, positions@, sizes@, ei as int),
            *num_jumps == if jump_reset_upto(chunks@, positions@, sizes@, ei as int) {
                0usize
            } else {
                *old(num_jumps)
            },
            *restart == (*old(restart) || restart_upto(chunks@, positions@, sizes@, ei as int)),
        decreases n - ei,
    {
        entity_tile_pass(positions, sizes, chunks, ei, into, num_jumps, restart);
        proof {
            assert(into@ =~= old(into)@ + pair_contacts_upto(positions@, sizes@, n as int)
                + tile_contacts_upto(chunks@, positions@, sizes@, ei as int + 1));
        }
        ei += 1;
    }
}

/// The tile and tile-aligned bounds one corner sample resolves to, with
/// the out-of-chunk substitute applied.
fn corner_lookup(chunk: &Tilemap, p: Vec2i) -> (r: (Tile, Rect))
    requires
        wf_tilemap(*chunk),
        -COORD_LIMIT < p.0 <= COORD_LIMIT,
        -COORD_LIMIT < p.1 <= COORD_LIMIT,
    ensures
        r == corner_tile_and_rect(*chunk, p),
{
    proof {
        reveal(corner_tile_and_rect);
    }
    match chunk.tile_and_bounds_at(p) {
        Some(tb) => tb,
        None => (
            Tile { solid: false, jump_reset: false, restart: false },
            Rect { x: 0, y: 0, w: 0, h: 0 },
        ),
    }
}

/// Emits the contact of one solid, positively overlapping corner tile.
fn push_corner_contact(into: &mut Vec<Contact>, sprite: Rect, ei: usize, t: Tile, tr: Rect)
    ensures
        final(into)@ == old(into)@ + tile_corner_contact(sprite, ei as int, t, tr),
{
    if t.solid {
        match rect_displacement(sprite, tr) {
            Some(disp) => {
                if disp.0 > 0 && disp.1 > 0 {
                    into.push(
                        Contact { a: ColliderID::Dynamic(ei), b: ColliderID::Tile(t, tr), mtv: disp },
                    );
                    proof {
                        lemma_overlap_bounds(sprite, tr);
                        assert(into@ =~= old(into)@ + tile_corner_contact(
                            sprite,
                            ei as int,
                            t,
                            tr,
                        ));
                    }
                } else {
                    proof {
                        lemma_overlap_bounds(sprite, tr);
                        assert(into@ =~= old(into)@ + tile_corner_contact(
                            sprite,
                            ei as int,
                            t,
                            tr,
                        ));
                    }
                }
            },
            None => {
                proof {
                    assert(into@ =~= old(into)@ + tile_corner_contact(sprite, ei as int, t, tr));
                }
            },
        }
    } else {
        proof {
            assert(into@ =~= old(into)@ + tile_corner_contact(sprite, ei as int, t, tr));
        }
    }
}

/// One entity's corner sampling against the chunk it resolves to: emits
/// its dynamic-tile contacts and reacts to the restart and jump-reset
/// flags of the sampled tiles.
fn entity_tile_pass(
    positions: &Vec<Vec2i>,
    sizes: &Vec<(usize, usize)>,
    chunks: &Vec<Tilemap>,
    ei: usize,
    into: &mut Vec<Contact>,
    num_jumps: &mut usize,
    restart: &mut bool,
)
    requires
        positions@.len() == sizes@.len(),
        ei < positions@.len(),
        chunks@.len() >= 1,
        forall|i: int| 0 <= i < chunks@.len() ==> wf_tilemap(#[trigger] chunks@[i]),
        pos_in_range(positions@[ei as int]),
        size_in_range(sizes@[ei as int]),
    ensures
        final(into)@ == old(into)@ + entity_tile_contacts(chunks@, positions@, sizes@, ei as int),
        *final(num_jumps) == if entity_bottom_jump_reset(chunks@, positions@, sizes@, ei as int) {
            0usize
        } else {
            *old(num_jumps)
        },
        *final(restart) == (*old(restart) || entity_tl_restart(
            chunks@,
            positions@,
            sizes@,
            ei as int,
        )),
{
    let pos = positions[ei];
    let size = sizes[ei];
    let tl = Vec2i(pos.0, pos.1);
    let tr = Vec2i(pos.0 + size.0 as i32, pos.1);
    let bl = Vec2i(pos.0, pos.1 + size.0 as i32);
    let br = Vec2i(pos.0 + size.0 as i32, pos.1 + size.0 as i32);
    proof {
        assert(tl == corner_tl(pos, size) && tr == corner_tr(pos, size) && bl == corner_bl(
            pos,
            size,
        ) && br == corner_br(pos, size));
    }
    let ci = locate_chunk(chunks, tl, tr, bl, br);
    let chunk = &chunks[ci];
    proof {
        assert(*chunk == entity_chunk(chunks@, pos, size));
    }
    let (ttl, tlrect) = corner_lookup(chunk, tl);
    let (ttr, trrect) = corner_lookup(chunk, tr);
    let (tbl, blrect) = corner_lookup(chunk, bl);
    let (tbr, brrect) = corner_lookup(chunk, br);
    let sprite_rect = Rect { x: pos.0, y: pos.1, w: size.0 as u16, h: size.1 as u16 };
    let ghost s0 = into@;
    push_corner_contact(into, sprite_rect, ei, ttl, tlrect);
    push_corner_contact(into, sprite_rect, ei, ttr, trrect);
    push_corner_contact(into, sprite_rect, ei, tbl, blrect);
    push_corner_contact(into, sprite_rect, ei, tbr, brrect);
    proof {
        assert(into@ =~= s0 + entity_tile_contacts(chunks@, positions@, sizes@, ei as int));
    }
    if ttl.restart {
        *restart = true;
    }
    if tbl.jump_reset || tbr.jump_reset {
        *num_jumps = 0;
    }
}


/// Valid mtv magnitudes: unsigned overlap magnitudes fit 16 bits, which
/// keeps the squared sort key and every position adjustment in range.
pub open spec fn contact_mtv_in_range(c: Contact) -> bool {
    0 <= c.mtv.0 <= 0xffff && 0 <= c.mtv.1 <= 0xffff
}

/// Valid collider references: every `Dynamic` index of the contact names
/// one of the `n` entities.
pub open spec fn contact_indices_wf(c: Contact, n: int) -> bool {
    &&& (c.a matches ColliderID::Dynamic(ai) ==> ai < n)
    &&& (c.b matches ColliderID::Dynamic(bi) ==> bi < n)
}

/// A contact the resolver accepts: in-range indices and mtv magnitudes.
pub open spec fn contact_wf(c: Contact, n: int) -> bool {
    contact_indices_wf(c, n) && contact_mtv_in_range(c)
}

/// Sort key of a contact: its squared overlap magnitude.
pub open spec fn contact_key(c: Contact) -> int {
    c.mtv.0 * c.mtv.0 + c.mtv.1 * c.mtv.1
}

/// Sort key of a contact, computed without overflow.
fn contact_key_i64(c: &Contact) -> (k: i64)
    requires
        contact_mtv_in_range(*c),
    ensures
        k == contact_key(*c),
{
    let a = c.mtv.0 as i64;
    let b = c.mtv.1 as i64;
    proof {
        assert(0 <= a * a <= 0xffff * 0xffff && 0 <= b * b <= 0xffff * 0xffff)
            by (nonlinear_arith)
            requires
                0 <= a <= 0xffff,
                0 <= b <= 0xffff,
        ;
    }
    a * a + b * b
}

/// Stable insertion of `c` into a descending run: `c` moves left past
/// exactly the elements of strictly smaller key.
pub open spec fn insert_desc(s: Seq<Contact>, c: Contact) -> Seq<Contact>
    decreases s.len(),
{
    if s.len() == 0 {
        seq![c]
    } else if contact_key(s.last()) >= contact_key(c) {
        s.push(c)
    } else {
        insert_desc(s.drop_last(), c).push(s.last())
    }
}

/// Stable sort by descending squared overlap magnitude, so the
/// largest-penetration contacts are resolved first.
pub open spec fn sort_desc(s: Seq<Contact>) -> Seq<Contact>
    decreases s.len(),
{
    if s.len() == 0 {
        seq![]
    } else {
        insert_desc(sort_desc(s.drop_last()), s.last())
    }
}

/// Insertion keeps the length and every per-element property of interest.
proof fn lemma_insert_desc_wf(s: Seq<Contact>, c: Contact, n: int)
    requires
        forall|i: int| 0 <= i < s.len() ==> contact_wf(#[trigger] s[i], n),
        contact_wf(c, n),
    ensures
        insert_desc(s, c).len() == s.len() + 1,
        forall|i: int| 0 <= i < insert_desc(s, c).len() ==> contact_wf(
            #[trigger] insert_desc(s, c)[i],
            n,
        ),
    decreases s.len(),
{
    if s.len() == 0 {
    } else if contact_key(s.last()) >= contact_key(c) {
    } else {
        lemma_insert_desc_wf(s.drop_last(), c, n);
    }
}

/// Sorting keeps the length and every per-element property of interest.
pub proof fn lemma_sort_desc_wf(s: Seq<Contact>, n: int)
    requires
        forall|i: int| 0 <= i < s.len() ==> contact_wf(#[trigger] s[i], n),
    ensures
        sort_desc(s).len() == s.len(),
        forall|i: int| 0 <= i < sort_desc(s).len() ==> contact_wf(#[trigger] sort_desc(s)[i], n),
    decreases s.len(),
{
    if s.len() == 0 {
    } else {
        lemma_sort_desc_wf(s.drop_last(), n);
        lemma_insert_desc_wf(sort_desc(s.drop_last()), s.last(), n);
    }
}

/// Replaces the contact list with its stable descending-key sort.
fn sort_contacts(contacts: &mut Vec<Contact>)
    requires
        forall|i: int| 0 <= i < old(contacts)@.len() ==> contact_mtv_in_range(
            #[trigger] old(contacts)@[i],
        ),
    ensures
        final(contacts)@ == sort_desc(old(contacts)@),
{
    let mut result: Vec<Contact> = Vec::new();
    let mut i: usize = 0;
    while i < contacts.len()
        invariant
            i <= contacts@.len(),
            forall|k: int| 0 <= k < contacts@.len() ==> contact_mtv_in_range(
                #[trigger] contacts@[k],
            ),
            result@ == sort_desc(contacts@.take(i as int)),
            forall|k: int| 0 <= k < result@.len() ==> contact_mtv_in_range(#[trigger] result@[k]),
        decreases contacts@.len() - i,
    {
        let c = contacts[i];
        let ck = contact_key_i64(&c);
        let mut j: usize = result.len();
        proof {
            assert(result@.take(result@.len() as int) =~= result@);
            assert(insert_desc(result@, c) + result@.skip(result@.len() as int) =~= insert_desc(
                result@,
                c,
            ));
        }
        while j > 0
            invariant_except_break
                j <= result@.len(),
                ck == contact_key(c),
                forall|k: int| 0 <= k < result@.len() ==> contact_mtv_in_range(
                    #[trigger] result@[k],
                ),
                insert_desc(result@, c) == insert_desc(result@.take(j as int), c) + result@.skip(
                    j as int,
                ),
            ensures
                j <= result@.len(),
                insert_desc(result@, c) == result@.take(j as int).push(c) + result@.skip(j as int),
            decreases j,
        {
            let kj = contact_key_i64(&result[j - 1]);
            if kj >= ck {
                proof {
                    assert(result@.take(j as int).last() == result@[j as int - 1]);
                    assert(insert_desc(result@.take(j as int), c) == result@.take(j as int).push(
                        c,
                    ));
                }
                break;
            }
            proof {
                let tj = result@.take(j as int);
                assert(tj.last() == result@[j as int - 1]);
                assert(tj.drop_last() =~= result@.take(j as int - 1));
                assert(insert_desc(tj, c) == insert_desc(result@.take(j as int - 1), c).push(
                    result@[j as int - 1],
                ));
                assert(insert_desc(result@.take(j as int - 1), c).push(result@[j as int - 1])
                    + result@.skip(j as int) =~= insert_desc(result@.take(j as int - 1), c)
                    + result@.skip(j as int - 1));
            }
            j -= 1;
        }
        proof {
            if j == 0 {
                assert(result@.take(0).len() == 0);
                assert(insert_desc(result@.take(0), c) =~= result@.take(0).push(c));
            }
            assert(result@.take(j as int).push(c) + result@.skip(j as int) =~= result@.insert(
                j as int,
                c,
            ));
        }
        result.insert(j, c);
        proof {
            let prefix = contacts@.take(i as int + 1);
            assert(prefix.drop_last() =~= contacts@.take(i as int));
            assert(prefix.last() == contacts@[i as int]);
            assert(result@ == insert_desc(sort_desc(contacts@.take(i as int)), contacts@[i as int]));
            assert(result@ == sort_desc(contacts@.take(i as int + 1)));
            lemma_insert_desc_range(sort_desc(contacts@.take(i as int)), contacts@[i as int]);
        }
        i += 1;
    }
    proof {
        assert(contacts@.take(contacts@.len() as int) =~= contacts@);
    }
    *contacts = result;
}

/// Insertion keeps the mtv ranges of its inputs.
proof fn lemma_insert_desc_range(s: Seq<Contact>, c: Contact)
    requires
        forall|i: int| 0 <= i < s.len() ==> contact_mtv_in_range(#[trigger] s[i]),
        contact_mtv_in_range(c),
    ensures
        forall|i: int| 0 <= i < insert_desc(s, c).len() ==> contact_mtv_in_range(
            #[trigger] insert_desc(s, c)[i],
        ),
    decreases s.len(),
{
    if s.len() == 0 {
    } else if contact_key(s.last()) >= contact_key(c) {
    } else {
        lemma_insert_desc_range(s.drop_last(), c);
        let rec = insert_desc(s.drop_last(), c);
        assert forall|i: int| 0 <= i < insert_desc(s, c).len() implies contact_mtv_in_range(
            #[trigger] insert_desc(s, c)[i],
        ) by {
            if i < rec.len() {
                assert(insert_desc(s, c)[i] == rec[i]);
            } else {
                assert(insert_desc(s, c)[i] == s.last());
            }
        }
    }
}

/// Bound within which every intermediate position and camera value of a
/// resolution pass stays, given the caller-facing limits.
pub const RESOLVE_LIMIT: i32 = 0x2000_0000;

/// The effect of resolving one contact on the entity positions and
/// velocities and the shared camera offset. A contact whose recomputed
/// overlap is gone (or, between two entities, no longer matches the
/// recorded mtv) is stale and leaves the state unchanged. Otherwise the
/// entity in `a` moves along the axis of smaller overlap (horizontal on a
/// tie), away from the other collider; against a tile the velocity
/// component on that axis is zeroed and the camera shifts in lock-step.
pub open spec fn resolve_one(
    ps: Seq<Vec2i>,
    vs: Seq<Vec2i>,
    cam: Vec2i,
    sizes: Seq<(usize, usize)>,
    c: Contact,
) -> (Seq<Vec2i>, Seq<Vec2i>, Vec2i) {
    match (c.a, c.b) {
        (ColliderID::Dynamic(ai), ColliderID::Dynamic(bi)) => {
            if ai < ps.len() && bi < ps.len() {
                let ar = entity_rect(ps[ai as int], sizes[ai as int]);
                let br = entity_rect(ps[bi as int], sizes[bi as int]);
                if rects_touch(ar, br) && overlap_x(ar, br) == c.mtv.0 && overlap_y(ar, br)
                    == c.mtv.1 {
                    let dx = overlap_x(ar, br);
                    let dy = overlap_y(ar, br);
                    if dx <= dy {
                        let nx = if ps[ai as int].0 < ps[bi as int].0 {
                            ps[ai as int].0 - dx
                        } else {
                            ps[ai as int].0 + dx
                        };
                        (ps.update(ai as int, Vec2i(nx as i32, ps[ai as int].1)), vs, cam)
                    } else {
                        let ny = if ps[ai as int].1 < ps[bi as int].1 {
                            ps[ai as int].1 - dy
                        } else {
                            ps[ai as int].1 + dy
                        };
                        (ps.update(ai as int, Vec2i(ps[ai as int].0, ny as i32)), vs, cam)
                    }
                } else {
                    (ps, vs, cam)
                }
            } else {
                (ps, vs, cam)
            }
        },
        (ColliderID::Dynamic(ai), ColliderID::Tile(t, tr)) => {
            if ai < ps.len() && ai < vs.len() {
                let ar = entity_rect(ps[ai as int], sizes[ai as int]);
                if rects_touch(ar, tr) {
                    let dx = overlap_x(ar, tr);
                    let dy = overlap_y(ar, tr);
                    if dx <= dy {
                        let nx = if ps[ai as int].0 < tr.x {
                            ps[ai as int].0 - dx
                        } else {
                            ps[ai as int].0 + dx
                        };
                        (
                            ps.update(ai as int, Vec2i(nx as i32, ps[ai as int].1)),
                            vs.update(ai as int, Vec2i(0, vs[ai as int].1)),
                            Vec2i((cam.0 + nx - ps[ai as int].0) as i32, cam.1),
                        )
                    } else {
                        let ny = if ps[ai as int].1 < tr.y {
                            ps[ai as int].1 - dy
                        } else {
                            ps[ai as int].1 + dy
                        };
                        (
                            ps.update(ai as int, Vec2i(ps[ai as int].0, ny as i32)),
                            vs.update(ai as int, Vec2i(vs[ai as int].0, 0)),
                            Vec2i(cam.0, (cam.1 + ny - ps[ai as int].1) as i32),
                        )
                    }
                } else {
                    (ps, vs, cam)
                }
            } else {
                (ps, vs, cam)
            }
        },
        _ => (ps, vs, cam),
    }
}

/// The state after resolving the first `k` contacts in order, starting
/// from the given positions, velocities and camera offset.
pub open spec fn resolve_upto(
    ps: Seq<Vec2i>,
    vs: Seq<Vec2i>,
    cam: Vec2i,
    sizes: Seq<(usize, usize)>,
    cs: Seq<Contact>,
    k: int,
) -> (Seq<Vec2i>, Seq<Vec2i>, Vec2i)
    decreases k,
{
    if k <= 0 {
        (ps, vs, cam)
    } else {
        let prev = resolve_upto(ps, vs, cam, sizes, cs, k - 1);
        resolve_one(prev.0, prev.1, prev.2, sizes, cs[k - 1])
    }
}

/// Resolving one contact moves one position, and the camera, by at most
/// one overlap magnitude on one axis, and never changes the lengths.
proof fn lemma_resolve_one_bounds(
    ps: Seq<Vec2i>,
    vs: Seq<Vec2i>,
    cam: Vec2i,
    sizes: Seq<(usize, usize)>,
    c: Contact,
    b: int,
)
    requires
        0 <= b <= 0x7ffe_0000,
        forall|i: int| 0 <= i < ps.len() ==> -b <= (#[trigger] ps[i]).0 <= b && -b <= ps[i].1 <= b,
        -b <= cam.0 <= b,
        -b <= cam.1 <= b,
    ensures
        ({
            let (p2, v2, c2) = resolve_one(ps, vs, cam, sizes, c);
            &&& p2.len() == ps.len()
            &&& v2.len() == vs.len()
            &&& forall|i: int|
                0 <= i < p2.len() ==> -b - 0x10000 <= (#[trigger] p2[i]).0 <= b + 0x10000 && -b
                    - 0x10000 <= p2[i].1 <= b + 0x10000
            &&& -b - 0x10000 <= c2.0 <= b + 0x10000
            &&& -b - 0x10000 <= c2.1 <= b + 0x10000
        }),
{
    match (c.a, c.b) {
        (ColliderID::Dynamic(ai), ColliderID::Dynamic(bi)) => {
            if ai < ps.len() && bi < ps.len() {
                let ar = entity_rect(ps[ai as int], sizes[ai as int]);
                let br = entity_rect(ps[bi as int], sizes[bi as int]);
                lemma_overlap_bounds(ar, br);
            }
        },
        (ColliderID::Dynamic(ai), ColliderID::Tile(t, tr)) => {
            if ai < ps.len() && ai < vs.len() {
                let ar = entity_rect(ps[ai as int], sizes[ai as int]);
                lemma_overlap_bounds(ar, tr);
            }
        },
        _ => {},
    }
}

/// All intermediate positions and camera values of a resolution pass stay
/// within `b` plus one overlap magnitude per resolved contact.
pub proof fn lemma_resolve_upto_bounds(
    ps: Seq<Vec2i>,
    vs: Seq<Vec2i>,
    cam: Vec2i,
    sizes: Seq<(usize, usize)>,
    cs: Seq<Contact>,
    k: int,
    b: int,
)
    requires
        0 <= k <= cs.len(),
        0 <= b,
        b + k * 0x10000 <= 0x7ffe_0000,
        forall|i: int| 0 <= i < ps.len() ==> -b <= (#[trigger] ps[i]).0 <= b && -b <= ps[i].1 <= b,
        -b <= cam.0 <= b,
        -b <= cam.1 <= b,
    ensures
        ({
            let (p2, v2, c2) = resolve_upto(ps, vs, cam, sizes, cs, k);
            &&& p2.len() == ps.len()
            &&& v2.len() == vs.len()
            &&& forall|i: int|
                0 <= i < p2.len() ==> -b - k * 0x10000 <= (#[trigger] p2[i]).0 <= b + k * 0x10000
                    && -b - k * 0x10000 <= p2[i].1 <= b + k * 0x10000
            &&& -b - k * 0x10000 <= c2.0 <= b + k * 0x10000
            &&& -b - k * 0x10000 <= c2.1 <= b + k * 0x10000
        }),
    decreases k,
{
    if k > 0 {
        lemma_resolve_upto_bounds(ps, vs, cam, sizes, cs, k - 1, b);
        let prev = resolve_upto(ps, vs, cam, sizes, cs, k - 1);
        lemma_resolve_one_bounds(prev.0, prev.1, prev.2, sizes, cs[k - 1], b + (k - 1) * 0x10000);
    }
}

/// Resolution only ever zeroes velocity components, so velocities stay
/// within any bound that holds going in.
pub proof fn lemma_resolve_vel_bounds(
    ps: Seq<Vec2i>,
    vs: Seq<Vec2i>,
    cam: Vec2i,
    sizes: Seq<(usize, usize)>,
    cs: Seq<Contact>,
    k: int,
    bv: int,
)
    requires
        0 <= k <= cs.len(),
        0 <= bv,
        forall|i: int| 0 <= i < vs.len() ==> -bv <= (#[trigger] vs[i]).0 <= bv && -bv <= vs[i].1
            <= bv,
    ensures
        ({
            let v2 = resolve_upto(ps, vs, cam, sizes, cs, k).1;
            &&& v2.len() == vs.len()
            &&& forall|i: int|
                0 <= i < v2.len() ==> -bv <= (#[trigger] v2[i]).0 <= bv && -bv <= v2[i].1 <= bv
        }),
    decreases k,
{
    if k > 0 {
        lemma_resolve_vel_bounds(ps, vs, cam, sizes, cs, k - 1, bv);
    }
}

/// Insertion adds exactly one element.
proof fn lemma_insert_desc_len(s: Seq<Contact>, c: Contact)
    ensures
        insert_desc(s, c).len() == s.len() + 1,
    decreases s.len(),
{
    if s.len() == 0 {
    } else if contact_key(s.last()) >= contact_key(c) {
    } else {
        lemma_insert_desc_len(s.drop_last(), c);
    }
}

/// Sorting keeps the length.
pub proof fn lemma_sort_desc_len(s: Seq<Contact>)
    ensures
        sort_desc(s).len() == s.len(),
    decreases s.len(),
{
    if s.len() > 0 {
        lemma_sort_desc_len(s.drop_last());
        lemma_insert_desc_len(sort_desc(s.drop_last()), s.last());
    }
}

/// Contacts in non-increasing order of squared overlap magnitude.
pub open spec fn sorted_desc(s: Seq<Contact>) -> bool {
    forall|i: int, j: int|
        0 <= i < j < s.len() ==> contact_key(#[trigger] s[i]) >= contact_key(#[trigger] s[j])
}

/// Insertion adds exactly the inserted contact to the contents.
proof fn lemma_insert_desc_multiset(s: Seq<Contact>, c: Contact)
    ensures
        insert_desc(s, c).to_multiset() == s.to_multiset().insert(c),
    decreases s.len(),
{
    broadcast use vstd::seq_lib::group_to_multiset_ensures;

    if s.len() == 0 {
        assert(seq![c] =~= Seq::<Contact>::empty().push(c));
    } else if contact_key(s.last()) >= contact_key(c) {
    } else {
        lemma_insert_desc_multiset(s.drop_last(), c);
        assert(s =~= s.drop_last().push(s.last()));
        assert(s.drop_last().to_multiset().insert(c).insert(s.last()) =~= s.drop_last()
            .to_multiset().insert(s.last()).insert(c));
    }
}

/// The sort is a permutation: it keeps exactly the gathered contacts.
pub proof fn lemma_sort_desc_multiset(s: Seq<Contact>)
    ensures
        sort_desc(s).to_multiset() == s.to_multiset(),
    decreases s.len(),
{
    broadcast use vstd::seq_lib::group_to_multiset_ensures;

    if s.len() > 0 {
        lemma_sort_desc_multiset(s.drop_last());
        lemma_insert_desc_multiset(sort_desc(s.drop_last()), s.last());
        assert(s =~= s.drop_last().push(s.last()));
    }
}

/// Insertion into a descending run keeps it descending.
proof fn lemma_insert_desc_sorted(s: Seq<Contact>, c: Contact)
    requires
        sorted_desc(s),
    ensures
        sorted_desc(insert_desc(s, c)),
    decreases s.len(),
{
    broadcast use vstd::seq_lib::group_to_multiset_ensures;

    if s.len() == 0 {
    } else if contact_key(s.last()) >= contact_key(c) {
    } else {
        assert(sorted_desc(s.drop_last()));
        lemma_insert_desc_sorted(s.drop_last(), c);
        lemma_insert_desc_multiset(s.drop_last(), c);
        let rec = insert_desc(s.drop_last(), c);
        assert forall|i: int| 0 <= i < rec.len() implies contact_key(rec[i]) >= contact_key(
            s.last(),
        ) by {
            assert(rec.contains(rec[i]));
            assert(rec.to_multiset().count(rec[i]) > 0);
            if rec[i] != c {
                assert(s.drop_last().to_multiset().count(rec[i]) > 0);
                assert(s.drop_last().contains(rec[i]));
                let j = choose|j: int| 0 <= j < s.drop_last().len() && s.drop_last()[j] == rec[i];
                assert(contact_key(s[j]) >= contact_key(s.last()));
            }
        }
        lemma_insert_desc_len(s.drop_last(), c);
    }
}

/// The sort's output is in non-increasing order of squared overlap
/// magnitude, so the largest-penetration contacts are resolved first.
pub proof fn lemma_sort_desc_sorted(s: Seq<Contact>)
    ensures
        sorted_desc(sort_desc(s)),
    decreases s.len(),
{
    if s.len() > 0 {
        lemma_sort_desc_sorted(s.drop_last());
        lemma_insert_desc_sorted(sort_desc(s.drop_last()), s.last());
    }
}

/// A corner sample contributes at most one contact, and only a valid one.
pub proof fn lemma_corner_wf(sprite: Rect, ei: int, t: Tile, tr: Rect, n: int)
    requires
        0 <= ei < n,
    ensures
        tile_corner_contact(sprite, ei, t, tr).len() <= 1,
        forall|i: int|
            0 <= i < tile_corner_contact(sprite, ei, t, tr).len() ==> contact_wf(
                #[trigger] tile_corner_contact(sprite, ei, t, tr)[i],
                n,
            ),
{
    lemma_overlap_bounds(sprite, tr);
}

/// The contacts one controlled entity gathers in a frame: at most its
/// four corner contacts, all with valid indices and mtv magnitudes.
pub proof fn lemma_single_gather_wf(
    chunks: Seq<Tilemap>,
    positions: Seq<Vec2i>,
    sizes: Seq<(usize, usize)>,
)
    requires
        positions.len() == 1,
        sizes.len() == 1,
    ensures
        ({
            let cs = all_pair_contacts(positions, sizes) + all_tile_contacts(
                chunks,
                positions,
                sizes,
            );
            &&& cs.len() <= 4
            &&& forall|i: int| 0 <= i < cs.len() ==> contact_wf(#[trigger] cs[i], 1)
        }),
{
    assert(pair_row_upto(positions, sizes, 0, 1) =~= Seq::<Contact>::empty());
    assert(pair_contacts_upto(positions, sizes, 0) =~= Seq::<Contact>::empty());
    assert(all_pair_contacts(positions, sizes) =~= Seq::<Contact>::empty());
    assert(tile_contacts_upto(chunks, positions, sizes, 0) =~= Seq::<Contact>::empty());
    let pos = positions[0];
    let size = sizes[0];
    let m = entity_chunk(chunks, pos, size);
    let sprite = entity_rect(pos, size);
    let tl = corner_tile_and_rect(m, corner_tl(pos, size));
    let tr = corner_tile_and_rect(m, corner_tr(pos, size));
    let bl = corner_tile_and_rect(m, corner_bl(pos, size));
    let br = corner_tile_and_rect(m, corner_br(pos, size));
    lemma_corner_wf(sprite, 0, tl.0, tl.1, 1);
    lemma_corner_wf(sprite, 0, tr.0, tr.1, 1);
    lemma_corner_wf(sprite, 0, bl.0, bl.1, 1);
    lemma_corner_wf(sprite, 0, br.0, br.1, 1);
    assert(all_tile_contacts(chunks, positions, sizes) =~= entity_tile_contacts(
        chunks,
        positions,
        sizes,
        0,
    ));
    let cs = all_pair_contacts(positions, sizes) + all_tile_contacts(chunks, positions, sizes);
    assert(forall|i: int| 0 <= i < cs.len() ==> contact_wf(#[trigger] cs[i], 1));
}

/// Applies one contact of the sorted list to the live state.
fn resolve_step(
    positions: &mut Vec<Vec2i>,
    sizes: &Vec<(usize, usize)>,
    velocities: &mut Vec<Vec2i>,
    camera: &mut Vec2i,
    c: Contact,
)
    requires
        old(positions)@.len() == sizes@.len(),
        old(velocities)@.len() == sizes@.len(),
        contact_indices_wf(c, sizes@.len() as int),
        forall|i: int| 0 <= i < sizes@.len() ==> size_in_range(#[trigger] sizes@[i]),
        forall|i: int|
            0 <= i < old(positions)@.len() ==> -RESOLVE_LIMIT <= (#[trigger] old(
                positions,
            )@[i]).0 <= RESOLVE_LIMIT && -RESOLVE_LIMIT <= old(positions)@[i].1 <= RESOLVE_LIMIT,
        -RESOLVE_LIMIT <= old(camera).0 <= RESOLVE_LIMIT,
        -RESOLVE_LIMIT <= old(camera).1 <= RESOLVE_LIMIT,
    ensures
        ({
            let (p2, v2, c2) = resolve_one(
                old(positions)@,
                old(velocities)@,
                *old(camera),
                sizes@,
                c,
            );
            final(positions)@ == p2 && final(velocities)@ == v2 && *final(camera) == c2
        }),
{
    match (c.a, c.b) {
        (ColliderID::Dynamic(ai), ColliderID::Dynamic(bi)) => {
            let apos = positions[ai];
            let bpos = positions[bi];
            let asize = sizes[ai];
            let bsize = sizes[bi];
            let arect = Rect { x: apos.0, y: apos.1, w: asize.0 as u16, h: asize.1 as u16 };
            let brect = Rect { x: bpos.0, y: bpos.1, w: bsize.0 as u16, h: bsize.1 as u16 };
            match rect_displacement(arect, brect) {
                Some(d) => {
                    if d.0 == c.mtv.0 && d.1 == c.mtv.1 {
                        proof {
                            lemma_overlap_bounds(arect, brect);
                        }
                        if d.0 <= d.1 {
                            if apos.0 < bpos.0 {
                                positions.set(ai, Vec2i(apos.0 - d.0, apos.1));
                            } else {
                                positions.set(ai, Vec2i(apos.0 + d.0, apos.1));
                            }
                        } else {
                            if apos.1 < bpos.1 {
                                positions.set(ai, Vec2i(apos.0, apos.1 - d.1));
                            } else {
                                positions.set(ai, Vec2i(apos.0, apos.1 + d.1));
                            }
                        }
                    }
                },
                None => {},
            }
        },
        (ColliderID::Dynamic(ai), ColliderID::Tile(_t, tr)) => {
            let apos = positions[ai];
            let asize = sizes[ai];
            let arect = Rect { x: apos.0, y: apos.1, w: asize.0 as u16, h: asize.1 as u16 };
            match rect_displacement(arect, tr) {
                Some(d) => {
                    proof {
                        lemma_overlap_bounds(arect, tr);
                    }
                    if d.0 <= d.1 {
                        if apos.0 < tr.x {
                            positions.set(ai, Vec2i(apos.0 - d.0, apos.1));
                            let v = velocities[ai];
                            velocities.set(ai, Vec2i(0, v.1));
                            *camera = Vec2i(camera.0 - d.0, camera.1);
                        } else {
                            positions.set(ai, Vec2i(apos.0 + d.0, apos.1));
                            let v = velocities[ai];
                            velocities.set(ai, Vec2i(0, v.1));
                            *camera = Vec2i(camera.0 + d.0, camera.1);
                        }
                    } else {
                        if apos.1 < tr.y {
                            positions.set(ai, Vec2i(apos.0, apos.1 - d.1));
                            let v = velocities[ai];
                            velocities.set(ai, Vec2i(v.0, 0));
                            *camera = Vec2i(camera.0, camera.1 - d.1);
                        } else {
                            positions.set(ai, Vec2i(apos.0, apos.1 + d.1));
                            let v = velocities[ai];
                            velocities.set(ai, Vec2i(v.0, 0));
                            *camera = Vec2i(camera.0, camera.1 + d.1);
                        }
                    }
                },
                None => {},
            }
        },
        _ => {},
    }
}

/// Consumes the frame's contacts: orders them by descending squared
/// overlap magnitude, then resolves each in turn against the *current*
/// positions, pushing the entity of each still-applicable contact out
/// along its axis of least penetration. Entity-entity pushes are
/// cosmetic; entity-tile pushes also zero the velocity component on the
/// separating axis and shift the camera in lock-step. Stale contacts are
/// skipped silently; the step never fails.
pub fn restitute(
    positions: &mut Vec<Vec2i>,
    sizes: &Vec<(usize, usize)>,
    velocities: &mut Vec<Vec2i>,
    camera: &mut Vec2i,
    contacts: &mut Vec<Contact>,
)
    requires
        old(positions)@.len() == sizes@.len(),
        old(velocities)@.len() == sizes@.len(),
        forall|i: int| 0 <= i < sizes@.len() ==> size_in_range(#[trigger] sizes@[i]),
        forall|i: int|
            0 <= i < old(positions)@.len() ==> -COORD_LIMIT <= (#[trigger] old(
                positions,
            )@[i]).0 <= COORD_LIMIT && -COORD_LIMIT <= old(positions)@[i].1 <= COORD_LIMIT,
        -COORD_LIMIT <= old(camera).0 <= COORD_LIMIT,
        -COORD_LIMIT <= old(camera).1 <= COORD_LIMIT,
        old(contacts)@.len() <= 0x1000,
        forall|i: int|
            0 <= i < old(contacts)@.len() ==> contact_wf(
                #[trigger] old(contacts)@[i],
                sizes@.len() as int,
            ),
    ensures
        final(contacts)@ == sort_desc(old(contacts)@),
        sorted_desc(final(contacts)@),
        final(contacts)@.to_multiset() == old(contacts)@.to_multiset(),
        ({
            let sorted = sort_desc(old(contacts)@);
            let (p2, v2, c2) = resolve_upto(
                old(positions)@,
                old(velocities)@,
                *old(camera),
                sizes@,
                sorted,
                sorted.len() as int,
            );
            final(positions)@ == p2 && final(velocities)@ == v2 && *final(camera) == c2
        }),
{
    proof {
        lemma_sort_desc_wf(contacts@, sizes@.len() as int);
        lemma_sort_desc_sorted(contacts@);
        lemma_sort_desc_multiset(contacts@);
    }
    sort_contacts(contacts);
    let ghost ps0 = positions@;
    let ghost vs0 = velocities@;
    let ghost cam0 = *camera;
    let ghost cs = contacts@;
    let n = contacts.len();
    let mut k: usize = 0;
    while k < n
        invariant
            n == contacts@.len(),
            k <= n,
            contacts@ == cs,
            cs.len() <= 0x1000,
            positions@.len() == sizes@.len(),
            velocities@.len() == sizes@.len(),
            ps0.len() == sizes@.len(),
            vs0.len() == sizes@.len(),
            forall|i: int| 0 <= i < sizes@.len() ==> size_in_range(#[trigger] sizes@[i]),
            forall|i: int|
                0 <= i < ps0.len() ==> -COORD_LIMIT <= (#[trigger] ps0[i]).0 <= COORD_LIMIT
                    && -COORD_LIMIT <= ps0[i].1 <= COORD_LIMIT,
            -COORD_LIMIT <= cam0.0 <= COORD_LIMIT,
            -COORD_LIMIT <= cam0.1 <= COORD_LIMIT,
            forall|i: int| 0 <= i < cs.len() ==> contact_wf(#[trigger] cs[i], sizes@.len() as int),
            ({
                let (p2, v2, c2) = resolve_upto(ps0, vs0, cam0, sizes@, cs, k as int);
                positions@ == p2 && velocities@ == v2 && *camera == c2
            }),
        decreases n - k,
    {
        proof {
            lemma_resolve_upto_bounds(ps0, vs0, cam0, sizes@, cs, k as int, COORD_LIMIT as int);
        }
        let c = contacts[k];
        resolve_step(positions, sizes, velocities, camera, c);
        k += 1;
    }
}

/// The entity pokes into the tile from one side on the horizontal axis:
/// it neither straddles the tile nor nests inside its span.
pub open spec fn one_sided_x(er: Rect, tr: Rect) -> bool {
    ||| (er.x < tr.x && er.x + er.w <= tr.x + tr.w)
    ||| (er.x >= tr.x && tr.x + tr.w <= er.x + er.w)
}

/// The entity pokes into the tile from one side on the vertical axis.
pub open spec fn one_sided_y(er: Rect, tr: Rect) -> bool {
    ||| (er.y < tr.y && er.y + er.h <= tr.y + tr.h)
    ||| (er.y >= tr.y && tr.y + tr.h <= er.y + er.h)
}

/// Restitution idempotence for an entity-tile contact: resolving the
/// contact pushes the entity flush against the tile on the separating
/// axis and zeroes the velocity component there, so regenerating
/// contacts finds no positive overlap between that entity and that tile
/// and emits nothing for the pair. This holds whenever the entity does
/// not straddle or nest within the tile's span on the separating axis —
/// in particular always when their extents match on that axis, as with
/// the square tiles and entities of the game.
pub proof fn lemma_restitution_idempotent(
    ps: Seq<Vec2i>,
    vs: Seq<Vec2i>,
    cam: Vec2i,
    sizes: Seq<(usize, usize)>,
    t: Tile,
    tr: Rect,
)
    requires
        ps.len() == 1,
        vs.len() == 1,
        sizes.len() == 1,
        size_in_range(sizes[0]),
        -COORD_LIMIT <= ps[0].0 <= COORD_LIMIT,
        -COORD_LIMIT <= ps[0].1 <= COORD_LIMIT,
        -COORD_LIMIT <= tr.x <= COORD_LIMIT,
        -COORD_LIMIT <= tr.y <= COORD_LIMIT,
        overlap_x(entity_rect(ps[0], sizes[0]), tr) > 0,
        overlap_y(entity_rect(ps[0], sizes[0]), tr) > 0,
        overlap_x(entity_rect(ps[0], sizes[0]), tr) <= overlap_y(entity_rect(ps[0], sizes[0]), tr)
            ==> one_sided_x(entity_rect(ps[0], sizes[0]), tr),
        overlap_y(entity_rect(ps[0], sizes[0]), tr) < overlap_x(entity_rect(ps[0], sizes[0]), tr)
            ==> one_sided_y(entity_rect(ps[0], sizes[0]), tr),
    ensures
        ({
            let er = entity_rect(ps[0], sizes[0]);
            let c = Contact {
                a: ColliderID::Dynamic(0),
                b: ColliderID::Tile(t, tr),
                mtv: (overlap_x(er, tr) as i32, overlap_y(er, tr) as i32),
            };
            let resolved = resolve_one(ps, vs, cam, sizes, c);
            let er2 = entity_rect(resolved.0[0], sizes[0]);
            &&& !(overlap_x(er2, tr) > 0 && overlap_y(er2, tr) > 0)
            &&& tile_corner_contact(er2, 0, t, tr) == Seq::<Contact>::empty()
            &&& (overlap_x(er, tr) <= overlap_y(er, tr) ==> overlap_x(er2, tr) == 0
                && resolved.1[0].0 == 0)
            &&& (overlap_y(er, tr) < overlap_x(er, tr) ==> overlap_y(er2, tr) == 0
                && resolved.1[0].1 == 0)
        }),
{
    let er = entity_rect(ps[0], sizes[0]);
    lemma_overlap_bounds(er, tr);
    let c = Contact {
        a: ColliderID::Dynamic(0),
        b: ColliderID::Tile(t, tr),
        mtv: (overlap_x(er, tr) as i32, overlap_y(er, tr) as i32),
    };
    let resolved = resolve_one(ps, vs, cam, sizes, c);
    let er2 = entity_rect(resolved.0[0], sizes[0]);
    assert(tile_corner_contact(er2, 0, t, tr) =~= Seq::<Contact>::empty());
}

} // verus!
