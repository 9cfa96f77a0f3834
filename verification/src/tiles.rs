//! The tile grid: a catalog of tile kinds (`Tileset`) and rectangular chunks
//! of tile references placed at world offsets (`Tilemap`), answering
//! "what tile, and what world-space bounds, covers this point" queries.

use vstd::prelude::*;
use crate::types::{div_trunc, div_trunc_i32, Rect, Vec2i};

verus! {

/// Side length of one square tile, in world units.
pub const TILE_SZ: usize = 32;

/// Side length of one square chunk, in world units.
pub const CHUNK_SZ: i32 = 256;

/// Bound on coordinate magnitudes that keeps all tile-grid and physics
/// arithmetic inside `i32`.
pub const COORD_LIMIT: i32 = 0x1000_0000;

/// One tile kind: a small bundle of behavior flags.
/// `solid` blocks motion, `jump_reset` clears the double-jump counter,
/// `restart` teleports the controlled entity back to its spawn point.
#[derive(Clone, Copy, PartialEq, Eq, Structural, Debug)]
pub struct Tile {
    pub solid: bool,
    pub jump_reset: bool,
    pub restart: bool,
}

/// The tile substituted for a query that falls outside every chunk:
/// non-solid and carrying no flags.
pub open spec fn default_tile() -> Tile {
    Tile { solid: false, jump_reset: false, restart: false }
}

/// An index into a `Tileset`.
#[derive(Clone, Copy, PartialEq, Eq, Structural, Debug)]
pub struct TileID(pub usize);

/// An immutable, ordered catalog of tile kinds shared by many tilemaps.
pub struct Tileset {
    pub tiles: Vec<Tile>,
}

impl Clone for Tileset {
    fn clone(&self) -> (s: Self)
        ensures
            s.tiles@ == self.tiles@,
    {
        let tiles = self.tiles.clone();
        proof {
            assert(tiles@ =~= self.tiles@);
        }
        Tileset { tiles }
    }
}

impl Tileset {
    pub fn new(tiles: Vec<Tile>) -> (s: Tileset)
        ensures
            s.tiles@ == tiles@,
    {
        Tileset { tiles }
    }

    /// Whether `id` names a tile of this set.
    pub fn contains(&self, id: TileID) -> (r: bool)
        ensures
            r == (id.0 < self.tiles@.len()),
    {
        id.0 < self.tiles.len()
    }

    /// The tile named by `id`.
    pub fn get(&self, id: TileID) -> (t: Tile)
        requires
            id.0 < self.tiles@.len(),
        ensures
            t == self.tiles@[id.0 as int],
    {
        self.tiles[id.0]
    }

    /// The source rectangle of tile `id` inside a sprite-sheet texture of
    /// the given pixel width (the texture is a row-major grid of tiles).
    pub fn get_rect(&self, id: TileID, texture_w: usize) -> (r: Rect)
        requires
            texture_w / TILE_SZ >= 1,
            texture_w <= COORD_LIMIT,
            id.0 <= 0xff_ffff,
        ensures
            r == spec_tile_src_rect(id, texture_w as int),
    {
        let idx = id.0;
        let tw = texture_w / TILE_SZ;
        let row = idx / tw;
        let col = idx % tw;
        proof {
            vstd::arithmetic::div_mod::lemma_mod_bound(idx as int, tw as int);
            vstd::arithmetic::div_mod::lemma_fundamental_div_mod(texture_w as int, TILE_SZ as int);
            vstd::arithmetic::div_mod::lemma_fundamental_div_mod(idx as int, tw as int);
            vstd::arithmetic::div_mod::lemma_mod_bound(texture_w as int, TILE_SZ as int);
            assert(col < tw);
            assert(tw * TILE_SZ <= texture_w) by (nonlinear_arith)
                requires
                    texture_w as int == TILE_SZ as int * (texture_w as int / TILE_SZ as int)
                        + texture_w as int % TILE_SZ as int,
                    tw as int == texture_w as int / TILE_SZ as int,
                    texture_w as int % TILE_SZ as int >= 0,
            ;
            assert(row * tw <= idx) by (nonlinear_arith)
                requires
                    idx as int == tw as int * (idx as int / tw as int) + idx as int % tw as int,
                    row as int == idx as int / tw as int,
                    idx as int % tw as int >= 0,
            ;
            assert(col * TILE_SZ < tw * TILE_SZ && row * TILE_SZ <= idx * TILE_SZ)
                by (nonlinear_arith)
                requires
                    col < tw,
                    row * tw <= idx,
                    tw >= 1,
                    row >= 0,
                    idx >= 0,
                    TILE_SZ > 0,
            ;
        }
        Rect {
            x: (col * TILE_SZ) as i32,
            y: (row * TILE_SZ) as i32,
            w: TILE_SZ as u16,
            h: TILE_SZ as u16,
        }
    }
}

/// The source rectangle of a tile inside a sprite-sheet texture of the
/// given pixel width: the texture is a row-major grid of square tiles.
pub open spec fn spec_tile_src_rect(id: TileID, texture_w: int) -> Rect {
    let tw = texture_w / TILE_SZ as int;
    Rect {
        x: ((id.0 as int % tw) * TILE_SZ) as i32,
        y: ((id.0 as int / tw) * TILE_SZ) as i32,
        w: TILE_SZ as u16,
        h: TILE_SZ as u16,
    }
}

/// One rectangular chunk of the world: a world-space origin, a
/// `(columns, rows)` extent, its tile catalog, and a row-major grid of
/// tile references. Immutable once constructed.
pub struct Tilemap {
    /// Where the chunk sits in world space.
    pub position: Vec2i,
    /// `(columns, rows)`.
    pub dims: (usize, usize),
    /// Which tileset this chunk's grid refers into.
    pub tileset: Tileset,
    /// Row-major grid of tile references, of length `columns * rows`.
    pub grid: Vec<TileID>,
}

/// Structural well-formedness of a chunk: the grid fills the declared
/// extent exactly, every tile reference is in range of the tileset, and
/// extents and origin are small enough that all tile arithmetic stays
/// inside `i32`.
pub open spec fn wf_tilemap(m: Tilemap) -> bool {
    &&& m.grid@.len() == m.dims.0 * m.dims.1
    &&& forall|i: int| 0 <= i < m.grid@.len() ==> (#[trigger] m.grid@[i]).0 < m.tileset.tiles@.len()
    &&& m.dims.0 <= 0x10000 && m.dims.1 <= 0x10000
    &&& -COORD_LIMIT <= m.position.0 <= COORD_LIMIT
    &&& -COORD_LIMIT <= m.position.1 <= COORD_LIMIT
}

/// The tile reference covering world point `p`, or `None` when `p` falls
/// outside the chunk. Coordinates are translated into the chunk's frame
/// and divided down (truncating toward zero) to tile units.
pub open spec fn spec_tile_id_at(m: Tilemap, p: Vec2i) -> Option<TileID> {
    let tx = div_trunc(p.0 - m.position.0, TILE_SZ as int);
    let ty = div_trunc(p.1 - m.position.1, TILE_SZ as int);
    if 0 <= tx < m.dims.0 && 0 <= ty < m.dims.1 {
        Some(m.grid@[ty * m.dims.0 + tx])
    } else {
        None
    }
}

/// The tile covering world point `p`, or `None` when outside the chunk.
pub open spec fn spec_tile_at(m: Tilemap, p: Vec2i) -> Option<Tile> {
    match spec_tile_id_at(m, p) {
        Some(id) => Some(m.tileset.tiles@[id.0 as int]),
        None => None,
    }
}

/// The tile covering `p` together with its tile-aligned world-space
/// bounding rectangle, or `None` when outside the chunk.
pub open spec fn spec_tile_and_bounds_at(m: Tilemap, p: Vec2i) -> Option<(Tile, Rect)> {
    let tx = div_trunc(p.0 - m.position.0, TILE_SZ as int);
    let ty = div_trunc(p.1 - m.position.1, TILE_SZ as int);
    match spec_tile_at(m, p) {
        Some(tile) => Some(
            (
                tile,
                Rect {
                    x: (tx * TILE_SZ + m.position.0) as i32,
                    y: (ty * TILE_SZ + m.position.1) as i32,
                    w: TILE_SZ as u16,
                    h: TILE_SZ as u16,
                },
            ),
        ),
        None => None,
    }
}

impl Tilemap {
    /// Builds a chunk. A grid whose length does not match the declared
    /// extent, or a tile reference outside the tileset, is a corrupted
    /// level asset; such inputs are excluded outright.
    pub fn new(position: Vec2i, dims: (usize, usize), tileset: &Tileset, grid: Vec<usize>) -> (m:
        Tilemap)
        requires
            dims.0 * dims.1 == grid@.len(),
            forall|i: int| 0 <= i < grid@.len() ==> #[trigger] grid@[i] < tileset.tiles@.len(),
            dims.0 <= 0x10000 && dims.1 <= 0x10000,
            -COORD_LIMIT <= position.0 <= COORD_LIMIT,
            -COORD_LIMIT <= position.1 <= COORD_LIMIT,
        ensures
            wf_tilemap(m),
            m.position == position,
            m.dims == dims,
            m.tileset.tiles@ == tileset.tiles@,
            m.grid@.len() == grid@.len(),
            forall|i: int| 0 <= i < grid@.len() ==> (#[trigger] m.grid@[i]).0 == grid@[i],
    {
        let mut ids: Vec<TileID> = Vec::new();
        let mut k: usize = 0;
        while k < grid.len()
            invariant
                k <= grid@.len(),
                ids@.len() == k,
                forall|i: int| 0 <= i < k ==> (#[trigger] ids@[i]).0 == grid@[i],
            decreases grid@.len() - k,
        {
            ids.push(TileID(grid[k]));
            k += 1;
        }
        Tilemap { position, dims, tileset: tileset.clone(), grid: ids }
    }

    /// `(columns, rows)`.
    pub fn size(&self) -> (s: (usize, usize))
        ensures
            s == self.dims,
    {
        self.dims
    }

    /// The tile reference covering world point `p`, or `None` if `p` is
    /// outside this chunk.
    pub fn tile_id_at(&self, p: Vec2i) -> (r: Option<TileID>)
        requires
            wf_tilemap(*self),
            -COORD_LIMIT < p.0 <= COORD_LIMIT,
            -COORD_LIMIT < p.1 <= COORD_LIMIT,
        ensures
            r == spec_tile_id_at(*self, p),
    {
        let x = div_trunc_i32(p.0 - self.position.0, TILE_SZ as i32);
        let y = div_trunc_i32(p.1 - self.position.1, TILE_SZ as i32);
        if x >= 0 && (x as usize) < self.dims.0 && y >= 0 && (y as usize) < self.dims.1 {
            proof {
                assert((y as int) * (self.dims.0 as int) + (x as int) < (self.dims.0 as int) * (
                self.dims.1 as int) && (y as int) * (self.dims.0 as int) + (x as int)
                    < 0x2_0000_0000) by (nonlinear_arith)
                    requires
                        0 <= (x as int) && (x as int) < (self.dims.0 as int),
                        0 <= (y as int) && (y as int) < (self.dims.1 as int),
                        self.dims.0 as int <= 0x10000,
                        self.dims.1 as int <= 0x10000,
                ;
            }
            let glen = self.grid.len();
            proof {
                assert((y as int) * (self.dims.0 as int) + (x as int) < glen);
            }
            let idx = (y as usize) * self.dims.0 + (x as usize);
            Some(self.grid[idx])
        } else {
            None
        }
    }

    /// The tile covering world point `p`, or `None` if outside this chunk.
    pub fn tile_at(&self, p: Vec2i) -> (r: Option<Tile>)
        requires
            wf_tilemap(*self),
            -COORD_LIMIT < p.0 <= COORD_LIMIT,
            -COORD_LIMIT < p.1 <= COORD_LIMIT,
        ensures
            r == spec_tile_at(*self, p),
    {
        match self.tile_id_at(p) {
            Some(id) => {
                proof {
                    let tx = div_trunc(p.0 - self.position.0, TILE_SZ as int);
                    let ty = div_trunc(p.1 - self.position.1, TILE_SZ as int);
                    assert(ty * (self.dims.0 as int) + tx < (self.dims.0 as int) * (self.dims.1
                        as int)) by (nonlinear_arith)
                        requires
                            0 <= tx && tx < (self.dims.0 as int),
                            0 <= ty && ty < (self.dims.1 as int),
                    ;
                }
                Some(self.tileset.get(id))
            },
            None => None,
        }
    }

    /// The tile covering `p` and its tile-aligned world-space bounding
    /// rectangle (of the tile cell, not of the query point), or `None`
    /// if `p` is outside this chunk.
    pub fn tile_and_bounds_at(&self, p: Vec2i) -> (r: Option<(Tile, Rect)>)
        requires
            wf_tilemap(*self),
            -COORD_LIMIT < p.0 <= COORD_LIMIT,
            -COORD_LIMIT < p.1 <= COORD_LIMIT,
        ensures
            r == spec_tile_and_bounds_at(*self, p),
    {
        let x = div_trunc_i32(p.0 - self.position.0, TILE_SZ as i32);
        let y = div_trunc_i32(p.1 - self.position.1, TILE_SZ as i32);
        match self.tile_at(p) {
            Some(tile) => Some(
                (
                    tile,
                    Rect {
                        x: x * (TILE_SZ as i32) + self.position.0,
                        y: y * (TILE_SZ as i32) + self.position.1,
                        w: TILE_SZ as u16,
                        h: TILE_SZ as u16,
                    },
                ),
            ),
            None => None,
        }
    }
}

/// A tile coordinate clamped into `[0, hi]`, as the visible-range
/// computation does.
pub open spec fn clamp_tile(v: int, hi: int) -> int {
    if v < 0 {
        0
    } else if v > hi {
        hi
    } else {
        v
    }
}

/// The blit commands of one row of visible tiles, for columns `[left, x)`
/// of row `y`: the tile's source rectangle in the sprite sheet and its
/// world-space destination.
pub open spec fn draw_row_upto(
    m: Tilemap,
    texture_w: int,
    y: int,
    left: int,
    x: int,
) -> Seq<(Rect, Vec2i)>
    decreases x - left,
{
    if x <= left {
        seq![]
    } else {
        draw_row_upto(m, texture_w, y, left, x - 1).push(
            (
                spec_tile_src_rect(m.grid@[y * m.dims.0 + (x - 1)], texture_w),
                Vec2i(((x - 1) * TILE_SZ + m.position.0) as i32, (y * TILE_SZ + m.position.1) as i32),
            ),
        )
    }
}

/// The blit commands of the visible rows `[top, y)`, each covering the
/// visible columns `[left, right)`, in row-major order.
pub open spec fn draw_rows_upto(
    m: Tilemap,
    texture_w: int,
    top: int,
    left: int,
    right: int,
    y: int,
) -> Seq<(Rect, Vec2i)>
    decreases y - top,
{
    if y <= top {
        seq![]
    } else {
        draw_rows_upto(m, texture_w, top, left, right, y - 1) + draw_row_upto(
            m,
            texture_w,
            y - 1,
            left,
            right,
        )
    }
}

/// All blit commands of the portion of the chunk appearing within the
/// screen rectangle: one per visible tile, rows top to bottom, columns
/// left to right.
pub open spec fn spec_draw(m: Tilemap, screen: Rect, texture_w: int) -> Seq<(Rect, Vec2i)> {
    let left = clamp_tile(div_trunc(screen.x - m.position.0, TILE_SZ as int), m.dims.0 as int);
    let right = clamp_tile(
        div_trunc(screen.x + screen.w - m.position.0, TILE_SZ as int),
        m.dims.0 as int,
    );
    let top = clamp_tile(div_trunc(screen.y - m.position.1, TILE_SZ as int), m.dims.1 as int);
    let bot = clamp_tile(
        div_trunc(screen.y + screen.h - m.position.1, TILE_SZ as int),
        m.dims.1 as int,
    );
    draw_rows_upto(m, texture_w, top, left, right, bot)
}

impl Tilemap {
    /// The blit commands for the portion of this chunk appearing within
    /// `screen`: for each visible tile, its source rectangle inside a
    /// sprite-sheet texture of pixel width `texture_w`, and the world
    /// position to draw it at. The caller hands these to the renderer.
    pub fn draw(&self, screen: Rect, texture_w: usize) -> (ops: Vec<(Rect, Vec2i)>)
        requires
            wf_tilemap(*self),
            self.tileset.tiles@.len() <= 0x100_0000,
            texture_w / TILE_SZ >= 1,
            texture_w <= COORD_LIMIT,
            -COORD_LIMIT < screen.x <= COORD_LIMIT,
            -COORD_LIMIT < screen.y <= COORD_LIMIT,
        ensures
            ops@ == spec_draw(*self, screen, texture_w as int),
    {
        let cols = self.dims.0;
        let rows = self.dims.1;
        let lraw = div_trunc_i32(screen.x - self.position.0, TILE_SZ as i32);
        let left: usize = if lraw < 0 {
            0
        } else if lraw as usize > cols {
            cols
        } else {
            lraw as usize
        };
        let rraw = div_trunc_i32(screen.x + screen.w as i32 - self.position.0, TILE_SZ as i32);
        let right: usize = if rraw < 0 {
            0
        } else if rraw as usize > cols {
            cols
        } else {
            rraw as usize
        };
        let traw = div_trunc_i32(screen.y - self.position.1, TILE_SZ as i32);
        let top: usize = if traw < 0 {
            0
        } else if traw as usize > rows {
            rows
        } else {
            traw as usize
        };
        let braw = div_trunc_i32(screen.y + screen.h as i32 - self.position.1, TILE_SZ as i32);
        let bot: usize = if braw < 0 {
            0
        } else if braw as usize > rows {
            rows
        } else {
            braw as usize
        };
        let mut ops: Vec<(Rect, Vec2i)> = Vec::new();
        let mut y: usize = top;
        while y < bot
            invariant
                wf_tilemap(*self),
                self.tileset.tiles@.len() <= 0x100_0000,
                texture_w / TILE_SZ >= 1,
                texture_w <= COORD_LIMIT,
                cols == self.dims.0,
                rows == self.dims.1,
                left <= cols,
                right <= cols,
                top <= y,
                y <= bot || y == top,
                bot <= rows,
                ops@ == draw_rows_upto(
                    *self,
                    texture_w as int,
                    top as int,
                    left as int,
                    right as int,
                    y as int,
                ),
            decreases bot - y,
        {
            let mut x: usize = left;
            proof {
                assert(draw_rows_upto(
                    *self,
                    texture_w as int,
                    top as int,
                    left as int,
                    right as int,
                    y as int,
                ) + draw_row_upto(*self, texture_w as int, y as int, left as int, left as int)
                    =~= draw_rows_upto(
                    *self,
                    texture_w as int,
                    top as int,
                    left as int,
                    right as int,
                    y as int,
                ));
            }
            while x < right
                invariant
                    wf_tilemap(*self),
                    self.tileset.tiles@.len() <= 0x100_0000,
                    texture_w / TILE_SZ >= 1,
                    texture_w <= COORD_LIMIT,
                    cols == self.dims.0,
                    rows == self.dims.1,
                    left <= x,
                    x <= right || x == left,
                    right <= cols,
                    top <= y,
                    y < bot,
                    bot <= rows,
                    ops@ == draw_rows_upto(
                        *self,
                        texture_w as int,
                        top as int,
                        left as int,
                        right as int,
                        y as int,
                    ) + draw_row_upto(*self, texture_w as int, y as int, left as int, x as int),
                decreases right - x,
            {
                proof {
                    assert((y as int) * (self.dims.0 as int) + (x as int) < (self.dims.0 as int)
                        * (self.dims.1 as int) && (y as int) * (self.dims.0 as int) + (x as int)
                        < 0x2_0000_0000) by (nonlinear_arith)
                        requires
                            0 <= (x as int) && (x as int) < (self.dims.0 as int),
                            0 <= (y as int) && (y as int) < (self.dims.1 as int),
                            self.dims.0 as int <= 0x10000,
                            self.dims.1 as int <= 0x10000,
                    ;
                }
                let glen = self.grid.len();
                proof {
                    assert((y as int) * (self.dims.0 as int) + (x as int) < glen);
                }
                let id = self.grid[y * cols + x];
                let frame = self.tileset.get_rect(id, texture_w);
                let xpx = (x * TILE_SZ) as i32 + self.position.0;
                let ypx = (y * TILE_SZ) as i32 + self.position.1;
                ops.push((frame, Vec2i(xpx, ypx)));
                proof {
                    assert(ops@ =~= draw_rows_upto(
                        *self,
                        texture_w as int,
                        top as int,
                        left as int,
                        right as int,
                        y as int,
                    ) + draw_row_upto(
                        *self,
                        texture_w as int,
                        y as int,
                        left as int,
                        x as int + 1,
                    ));
                }
                x += 1;
            }
            proof {
                assert(ops@ =~= draw_rows_upto(
                    *self,
                    texture_w as int,
                    top as int,
                    left as int,
                    right as int,
                    y as int + 1,
                ));
            }
            y += 1;
        }
        proof {
            assert(left as int == clamp_tile(
                div_trunc(screen.x - self.position.0, TILE_SZ as int),
                self.dims.0 as int,
            ));
            assert(right as int == clamp_tile(
                div_trunc(screen.x + screen.w - self.position.0, TILE_SZ as int),
                self.dims.0 as int,
            ));
            assert(top as int == clamp_tile(
                div_trunc(screen.y - self.position.1, TILE_SZ as int),
                self.dims.1 as int,
            ));
            assert(bot as int == clamp_tile(
                div_trunc(screen.y + screen.h - self.position.1, TILE_SZ as int),
                self.dims.1 as int,
            ));
            if bot <= top {
                assert(ops@ =~= spec_draw(*self, screen, texture_w as int));
            }
        }
        ops
    }
}

/// The tile and bounds a corner sample resolves to: the covering tile of
/// the chunk, or, outside the chunk, a non-solid, non-flagged tile with a
/// zero-size rectangle.
#[verifier::opaque]
pub open spec fn corner_tile_and_rect(m: Tilemap, p: Vec2i) -> (Tile, Rect) {
    match spec_tile_and_bounds_at(m, p) {
        Some(tb) => tb,
        None => (default_tile(), Rect { x: 0, y: 0, w: 0, h: 0 }),
    }
}

/// Whether the chunk's bounding square (origin to origin + one chunk side)
/// contains the point. The square is fixed at `CHUNK_SZ` regardless of the
/// chunk's declared extent.
pub open spec fn chunk_covers(m: Tilemap, p: Vec2i) -> bool {
    &&& m.position.0 <= p.0 < m.position.0 + CHUNK_SZ
    &&& m.position.1 <= p.1 < m.position.1 + CHUNK_SZ
}

/// Whether the chunk's bounding square contains all four corner points.
pub open spec fn chunk_covers_all(m: Tilemap, tl: Vec2i, tr: Vec2i, bl: Vec2i, br: Vec2i) -> bool {
    chunk_covers(m, tl) && chunk_covers(m, tr) && chunk_covers(m, bl) && chunk_covers(m, br)
}

/// Index of the first chunk at or after position `i` whose bounding square
/// contains all four corners, if any.
pub open spec fn find_chunk_from(
    chunks: Seq<Tilemap>,
    i: int,
    tl: Vec2i,
    tr: Vec2i,
    bl: Vec2i,
    br: Vec2i,
) -> Option<int>
    decreases chunks.len() - i,
{
    if i < 0 || i >= chunks.len() {
        None
    } else if chunk_covers_all(chunks[i], tl, tr, bl, br) {
        Some(i)
    } else {
        find_chunk_from(chunks, i + 1, tl, tr, bl, br)
    }
}

/// Index of the first chunk whose bounding square contains all four
/// corners; chunk 0 when no chunk matches. The fallback is deliberate,
/// documented behavior: likely surprising, but relied upon, so it is
/// surfaced here rather than changed.
pub open spec fn spec_locate_chunk(
    chunks: Seq<Tilemap>,
    tl: Vec2i,
    tr: Vec2i,
    bl: Vec2i,
    br: Vec2i,
) -> int {
    match find_chunk_from(chunks, 0, tl, tr, bl, br) {
        Some(i) => i,
        None => 0,
    }
}

/// Linearly scans the known chunks for the first whose bounding square
/// contains all four corner points of an entity; falls back to chunk 0
/// on a miss.
pub fn locate_chunk(chunks: &Vec<Tilemap>, tl: Vec2i, tr: Vec2i, bl: Vec2i, br: Vec2i) -> (r:
    usize)
    requires
        chunks@.len() >= 1,
        forall|i: int| 0 <= i < chunks@.len() ==> wf_tilemap(#[trigger] chunks@[i]),
    ensures
        r == spec_locate_chunk(chunks@, tl, tr, bl, br),
        r < chunks@.len(),
{
    let mut i: usize = 0;
    while i < chunks.len()
        invariant
            i <= chunks@.len(),
            forall|k: int| 0 <= k < chunks@.len() ==> wf_tilemap(#[trigger] chunks@[k]),
            find_chunk_from(chunks@, 0, tl, tr, bl, br) == find_chunk_from(
                chunks@,
                i as int,
                tl,
                tr,
                bl,
                br,
            ),
        decreases chunks@.len() - i,
    {
        let m = &chunks[i];
        if m.position.0 <= tl.0 && tl.0 < m.position.0 + CHUNK_SZ && m.position.1 <= tl.1 && tl.1
            < m.position.1 + CHUNK_SZ && m.position.0 <= tr.0 && tr.0 < m.position.0 + CHUNK_SZ
            && m.position.1 <= tr.1 && tr.1 < m.position.1 + CHUNK_SZ && m.position.0 <= bl.0
            && bl.0 < m.position.0 + CHUNK_SZ && m.position.1 <= bl.1 && bl.1 < m.position.1
            + CHUNK_SZ && m.position.0 <= br.0 && br.0 < m.position.0 + CHUNK_SZ && m.position.1
            <= br.1 && br.1 < m.position.1 + CHUNK_SZ {
            return i;
        }
        i += 1;
    }
    0
}

/// Relies on `rand::Rng::gen_range` over `0..bound`: returns a value of
/// the range, uniformly drawn; panics only on an empty range, which the
/// precondition excludes.
#[verifier::external_body]
fn rand_below(bound: usize) -> (n: usize)
    requires
        0 < bound,
    ensures
        n < bound,
{
    rand::Rng::gen_range(&mut rand::thread_rng(), 0..bound)
}

/// The tile reference that one weighted-random draw selects when
/// synthesizing a chunk; `game` picks between the two probability tables
/// (mode 1 is the exploration overworld, any other mode the plain table).
pub open spec fn spec_tile_for_draw(game: usize, n: usize) -> usize {
    if game == 1 {
        if n <= 11 {
            n
        } else if n < 20 {
            0
        } else if n < 25 {
            1
        } else if n < 32 {
            2
        } else if n < 40 {
            3
        } else if n < 43 {
            4
        } else if n < 47 {
            6
        } else {
            9
        }
    } else {
        if n <= 12 {
            n
        } else {
            8
        }
    }
}

/// Maps one weighted-random draw to the tile reference it selects.
pub fn tile_for_draw(game: usize, n: usize) -> (t: usize)
    ensures
        t == spec_tile_for_draw(game, n),
        t <= 12,
{
    if game == 1 {
        if n <= 11 {
            n
        } else if n < 20 {
            0
        } else if n < 25 {
            1
        } else if n < 32 {
            2
        } else if n < 40 {
            3
        } else if n < 43 {
            4
        } else if n < 47 {
            6
        } else {
            9
        }
    } else {
        if n <= 12 {
            n
        } else {
            8
        }
    }
}

/// The range the weighted-random draws of one synthesis run are taken
/// from: each drawn value is below this bound.
pub open spec fn draw_bound(game: usize) -> usize {
    if game == 1 {
        55usize
    } else {
        50usize
    }
}

/// Whether `v` lies in the mode's draw table: it is the image of some
/// in-range draw under `spec_tile_for_draw` (so in particular at most 12).
pub open spec fn in_draw_table(game: usize, v: usize) -> bool {
    exists|n: usize| n < draw_bound(game) && v == #[trigger] spec_tile_for_draw(game, n)
}

impl Tileset {
    /// Procedurally fills a fresh square chunk at `psn` by weighted-random
    /// tile selection, tuned per mode. The shape, position and validity of
    /// the result are fixed, and every tile reference lies in the mode's
    /// draw table — the image of `spec_tile_for_draw` over the draw range,
    /// all of it at most 12; which table entries come out depends on the
    /// random draws.
    pub fn create_map(tileset: &Tileset, psn: Vec2i, game: usize) -> (m: Tilemap)
        requires
            tileset.tiles@.len() >= 13,
            -COORD_LIMIT <= psn.0 <= COORD_LIMIT,
            -COORD_LIMIT <= psn.1 <= COORD_LIMIT,
        ensures
            wf_tilemap(m),
            m.position == psn,
            m.dims == (8usize, 8usize),
            m.tileset.tiles@ == tileset.tiles@,
            forall|i: int| 0 <= i < m.grid@.len() ==> (#[trigger] m.grid@[i]).0 <= 12,
            forall|i: int| 0 <= i < m.grid@.len() ==> in_draw_table(game, (#[trigger] m.grid@[i]).0),
    {
        let bound: usize = if game == 1 {
            55
        } else {
            50
        };
        let mut tiles: Vec<usize> = Vec::new();
        let mut k: usize = 0;
        while k < 64
            invariant
                0 < bound,
                bound == draw_bound(game),
                tiles@.len() == k,
                k <= 64,
                forall|i: int| 0 <= i < k ==> #[trigger] tiles@[i] <= 12,
                forall|i: int| 0 <= i < k ==> in_draw_table(game, #[trigger] tiles@[i]),
            decreases 64 - k,
        {
            let n = rand_below(bound);
            tiles.push(tile_for_draw(game, n));
            proof {
                assert(in_draw_table(game, tiles@[k as int])) by {
                    assert(tiles@[k as int] == spec_tile_for_draw(game, n));
                }
            }
            k += 1;
        }
        let m = Tilemap::new(psn, (8, 8), tileset, tiles);
        proof {
            assert forall|i: int| 0 <= i < m.grid@.len() implies (#[trigger] m.grid@[i]).0 <= 12
                && in_draw_table(game, m.grid@[i].0) by {
                assert(m.grid@[i].0 == tiles@[i]);
            }
        }
        m
    }
}

} // verus!
