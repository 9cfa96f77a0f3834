use tilephys::tiles::{locate_chunk, tile_for_draw, Tile, TileID, Tilemap, Tileset};
use tilephys::types::{Rect, Vec2i};

fn plain_tile() -> Tile {
    Tile { solid: false, jump_reset: false, restart: false }
}

fn sample_tileset() -> Tileset {
    Tileset::new(vec![plain_tile(); 16])
}

#[test]
fn tile_queries_inside_and_outside_a_chunk() {
    // One 8x8 chunk at the origin with all-zero (non-solid) tiles:
    // (100,100) is inside (the chunk spans 8 * 32 = 256 world units),
    // (300,300) is outside.
    let tileset = sample_tileset();
    let chunk = Tilemap::new(Vec2i(0, 0), (8, 8), &tileset, vec![0; 64]);
    let inside = chunk.tile_and_bounds_at(Vec2i(100, 100));
    let (tile, bounds) = inside.expect("point inside the chunk must resolve");
    assert!(!tile.solid);
    assert_eq!(bounds, Rect { x: 96, y: 96, w: 32, h: 32 });
    assert_eq!(chunk.tile_and_bounds_at(Vec2i(300, 300)), None);
}

#[test]
fn tile_id_lookup_is_row_major() {
    let tileset = sample_tileset();
    let mut grid = vec![0usize; 64];
    grid[2 * 8 + 3] = 7; // row 2, column 3
    let chunk = Tilemap::new(Vec2i(0, 0), (8, 8), &tileset, grid);
    assert_eq!(chunk.tile_id_at(Vec2i(3 * 32 + 5, 2 * 32 + 5)), Some(TileID(7)));
    assert_eq!(chunk.tile_id_at(Vec2i(0, 0)), Some(TileID(0)));
    assert_eq!(chunk.size(), (8, 8));
}

#[test]
fn tile_lookup_respects_chunk_offset() {
    let tileset = sample_tileset();
    let mut grid = vec![0usize; 64];
    grid[0] = 5;
    let chunk = Tilemap::new(Vec2i(256, 512), (8, 8), &tileset, grid);
    assert_eq!(chunk.tile_id_at(Vec2i(256, 512)), Some(TileID(5)));
    assert_eq!(chunk.tile_id_at(Vec2i(100, 100)), None);
}

#[test]
fn truncating_division_maps_near_left_edge_inward() {
    // A point up to one tile left of the chunk origin still truncates to
    // tile column 0: a documented quirk of the truncating coordinate
    // division.
    let tileset = sample_tileset();
    let chunk = Tilemap::new(Vec2i(0, 0), (8, 8), &tileset, vec![0; 64]);
    assert_eq!(chunk.tile_id_at(Vec2i(-5, 5)), Some(TileID(0)));
    assert_eq!(chunk.tile_id_at(Vec2i(-32, 5)), None);
}

#[test]
fn locate_chunk_finds_covering_square_or_falls_back() {
    let tileset = sample_tileset();
    let c0 = Tilemap::new(Vec2i(0, 0), (8, 8), &tileset, vec![0; 64]);
    let c1 = Tilemap::new(Vec2i(256, 0), (8, 8), &tileset, vec![0; 64]);
    let chunks = vec![c0, c1];
    // all four corners inside the second chunk's bounding square
    let idx = locate_chunk(
        &chunks,
        Vec2i(300, 10),
        Vec2i(332, 10),
        Vec2i(300, 42),
        Vec2i(332, 42),
    );
    assert_eq!(idx, 1);
    // corners covered by no chunk: defined fallback to chunk 0
    let miss = locate_chunk(
        &chunks,
        Vec2i(9000, 9000),
        Vec2i(9032, 9000),
        Vec2i(9000, 9032),
        Vec2i(9032, 9032),
    );
    assert_eq!(miss, 0);
    // corners straddling two chunks match neither square: fallback again
    let straddle = locate_chunk(
        &chunks,
        Vec2i(240, 10),
        Vec2i(272, 10),
        Vec2i(240, 42),
        Vec2i(272, 42),
    );
    assert_eq!(straddle, 0);
}

#[test]
fn tileset_contains_and_get() {
    let tileset = Tileset::new(vec![
        plain_tile(),
        Tile { solid: true, jump_reset: true, restart: false },
    ]);
    assert!(tileset.contains(TileID(1)));
    assert!(!tileset.contains(TileID(2)));
    let t = tileset.get(TileID(1));
    assert!(t.solid && t.jump_reset && !t.restart);
}

#[test]
fn sprite_sheet_rect_is_grid_cell() {
    // A 256-pixel-wide sheet holds 8 tiles per row: id 10 sits at
    // row 1, column 2.
    let tileset = sample_tileset();
    let r = tileset.get_rect(TileID(10), 256);
    assert_eq!(r, Rect { x: 64, y: 32, w: 32, h: 32 });
    let r0 = tileset.get_rect(TileID(0), 256);
    assert_eq!(r0, Rect { x: 0, y: 0, w: 32, h: 32 });
}

#[test]
fn weighted_draw_tables_map_exactly() {
    // exploration-overworld table (mode 1)
    assert_eq!(tile_for_draw(1, 11), 11);
    assert_eq!(tile_for_draw(1, 12), 0);
    assert_eq!(tile_for_draw(1, 19), 0);
    assert_eq!(tile_for_draw(1, 20), 1);
    assert_eq!(tile_for_draw(1, 24), 1);
    assert_eq!(tile_for_draw(1, 25), 2);
    assert_eq!(tile_for_draw(1, 31), 2);
    assert_eq!(tile_for_draw(1, 32), 3);
    assert_eq!(tile_for_draw(1, 39), 3);
    assert_eq!(tile_for_draw(1, 40), 4);
    assert_eq!(tile_for_draw(1, 42), 4);
    assert_eq!(tile_for_draw(1, 43), 6);
    assert_eq!(tile_for_draw(1, 46), 6);
    assert_eq!(tile_for_draw(1, 47), 9);
    assert_eq!(tile_for_draw(1, 54), 9);
    // plain table (any other mode)
    assert_eq!(tile_for_draw(2, 0), 0);
    assert_eq!(tile_for_draw(2, 12), 12);
    assert_eq!(tile_for_draw(2, 13), 8);
    assert_eq!(tile_for_draw(2, 49), 8);
}

#[test]
fn synthesized_chunk_is_well_formed() {
    let tileset = Tileset::new(vec![plain_tile(); 16]);
    let m = Tileset::create_map(&tileset, Vec2i(1024, 256), 1);
    assert_eq!(m.position, Vec2i(1024, 256));
    assert_eq!(m.dims, (8, 8));
    assert_eq!(m.grid.len(), 64);
    // every tile reference lies in the exploration mode's draw table
    for id in m.grid.iter() {
        assert!(id.0 <= 11 || [0, 1, 2, 3, 4, 6, 9].contains(&id.0));
    }
    // the plain table: direct values up to 12, or the filler tile 8
    let m2 = Tileset::create_map(&tileset, Vec2i(0, 0), 2);
    assert_eq!(m2.dims, (8, 8));
    for id in m2.grid.iter() {
        assert!(id.0 <= 12);
    }
}

#[test]
fn draw_lists_visible_tiles_row_major() {
    let tileset = sample_tileset();
    let mut grid = vec![0usize; 64];
    grid[0] = 1;
    grid[1] = 2;
    grid[8] = 3;
    grid[9] = 4;
    let chunk = Tilemap::new(Vec2i(0, 0), (8, 8), &tileset, grid);
    let screen = Rect { x: 0, y: 0, w: 64, h: 64 };
    let ops = chunk.draw(screen, 256);
    assert_eq!(ops.len(), 4);
    // row-major: (0,0), (1,0), (0,1), (1,1)
    assert_eq!(ops[0], (Rect { x: 32, y: 0, w: 32, h: 32 }, Vec2i(0, 0)));
    assert_eq!(ops[1], (Rect { x: 64, y: 0, w: 32, h: 32 }, Vec2i(32, 0)));
    assert_eq!(ops[2], (Rect { x: 96, y: 0, w: 32, h: 32 }, Vec2i(0, 32)));
    assert_eq!(ops[3], (Rect { x: 128, y: 0, w: 32, h: 32 }, Vec2i(32, 32)));
}

#[test]
fn draw_of_offscreen_chunk_is_empty() {
    let tileset = sample_tileset();
    let chunk = Tilemap::new(Vec2i(0, 0), (8, 8), &tileset, vec![0; 64]);
    let screen = Rect { x: 10000, y: 10000, w: 64, h: 64 };
    assert!(chunk.draw(screen, 256).is_empty());
}
