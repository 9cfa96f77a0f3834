use tilephys::collision::{gather_contacts, rect_displacement, rect_touching, restitute, ColliderID};
use tilephys::tiles::{Tile, Tilemap, Tileset};
use tilephys::types::{Rect, Vec2i};

fn plain_tile() -> Tile {
    Tile { solid: false, jump_reset: false, restart: false }
}

fn solid_tile() -> Tile {
    Tile { solid: true, jump_reset: false, restart: false }
}

fn all_plain_chunk() -> Tilemap {
    let tileset = Tileset::new(vec![plain_tile(), solid_tile()]);
    Tilemap::new(Vec2i(0, 0), (8, 8), &tileset, vec![0; 64])
}

#[test]
fn displacement_of_overlapping_rects() {
    let r1 = Rect { x: 0, y: 0, w: 32, h: 32 };
    let r2 = Rect { x: 16, y: 16, w: 32, h: 32 };
    assert_eq!(rect_displacement(r1, r2), Some((16, 16)));
    assert!(rect_touching(r1, r2));
}

#[test]
fn displacement_of_touching_rects_is_zero() {
    let r1 = Rect { x: 0, y: 0, w: 32, h: 32 };
    let r2 = Rect { x: 32, y: 0, w: 32, h: 32 };
    assert_eq!(rect_displacement(r1, r2), Some((0, 32)));
    assert!(rect_touching(r1, r2));
}

#[test]
fn displacement_of_separate_rects_is_none() {
    let r1 = Rect { x: 0, y: 0, w: 32, h: 32 };
    let r2 = Rect { x: 100, y: 0, w: 32, h: 32 };
    assert_eq!(rect_displacement(r1, r2), None);
    assert!(!rect_touching(r1, r2));
}

#[test]
fn displacement_is_symmetric_on_sample() {
    let r1 = Rect { x: 3, y: -7, w: 20, h: 40 };
    let r2 = Rect { x: -5, y: 10, w: 33, h: 8 };
    assert_eq!(rect_displacement(r1, r2), rect_displacement(r2, r1));
}

#[test]
fn two_entities_emit_exactly_one_contact() {
    // Two 32x32 entities at (0,0) and (16,16): one dynamic-dynamic
    // contact with mtv (16,16).
    let positions = vec![Vec2i(0, 0), Vec2i(16, 16)];
    let sizes = vec![(32usize, 32usize), (32usize, 32usize)];
    let chunks = vec![all_plain_chunk()];
    let mut contacts = Vec::new();
    let mut num_jumps = 1usize;
    let mut restart = false;
    gather_contacts(&positions, &sizes, &chunks, &mut contacts, &mut num_jumps, &mut restart);
    assert_eq!(contacts.len(), 1);
    assert_eq!(contacts[0].a, ColliderID::Dynamic(0));
    assert_eq!(contacts[0].b, ColliderID::Dynamic(1));
    assert_eq!(contacts[0].mtv, (16, 16));
    assert_eq!(num_jumps, 1);
    assert!(!restart);
}

#[test]
fn falling_entity_settles_on_solid_tile() {
    // A 32x32 entity at (0,0) with velocity (0,5), above a solid tile
    // occupying {x:0, y:32, w:32, h:32}: after integration, contact
    // generation and restitution, position.y settles back to 0 and
    // velocity.y becomes 0.
    let tileset = Tileset::new(vec![plain_tile(), solid_tile()]);
    let mut grid = vec![0usize; 64];
    grid[8] = 1; // row 1, column 0: world rect {0, 32, 32, 32}
    let chunk = Tilemap::new(Vec2i(0, 0), (8, 8), &tileset, grid);
    let chunks = vec![chunk];

    let mut positions = vec![Vec2i(0, 5)]; // after integrating (0,0) + (0,5)
    let mut velocities = vec![Vec2i(0, 5)];
    let sizes = vec![(32usize, 32usize)];
    let mut camera = Vec2i(0, 0);
    let mut contacts = Vec::new();
    let mut num_jumps = 0usize;
    let mut restart = false;
    gather_contacts(&positions, &sizes, &chunks, &mut contacts, &mut num_jumps, &mut restart);
    assert_eq!(contacts.len(), 1);
    assert_eq!(contacts[0].mtv, (32, 5));
    restitute(&mut positions, &sizes, &mut velocities, &mut camera, &mut contacts);
    assert_eq!(positions[0], Vec2i(0, 0));
    assert_eq!(velocities[0], Vec2i(0, 0));
    assert_eq!(camera, Vec2i(0, -5));
}

#[test]
fn resolved_tile_contact_does_not_regenerate() {
    // Resolving the single entity-tile contact leaves zero overlap on
    // the separating axis, so a second contact pass emits nothing.
    let tileset = Tileset::new(vec![plain_tile(), solid_tile()]);
    let mut grid = vec![0usize; 64];
    grid[8] = 1;
    let chunk = Tilemap::new(Vec2i(0, 0), (8, 8), &tileset, grid);
    let chunks = vec![chunk];

    let mut positions = vec![Vec2i(0, 5)];
    let mut velocities = vec![Vec2i(0, 5)];
    let sizes = vec![(32usize, 32usize)];
    let mut camera = Vec2i(0, 0);
    let mut contacts = Vec::new();
    let mut num_jumps = 0usize;
    let mut restart = false;
    gather_contacts(&positions, &sizes, &chunks, &mut contacts, &mut num_jumps, &mut restart);
    restitute(&mut positions, &sizes, &mut velocities, &mut camera, &mut contacts);
    let mut regenerated = Vec::new();
    gather_contacts(
        &positions,
        &sizes,
        &chunks,
        &mut regenerated,
        &mut num_jumps,
        &mut restart,
    );
    assert!(regenerated.is_empty());
}

#[test]
fn stale_dynamic_contact_is_skipped() {
    // A dynamic-dynamic contact whose recorded mtv no longer matches the
    // recomputed overlap leaves the state untouched.
    let mut positions = vec![Vec2i(0, 0), Vec2i(16, 16)];
    let mut velocities = vec![Vec2i(1, 1), Vec2i(0, 0)];
    let sizes = vec![(32usize, 32usize), (32usize, 32usize)];
    let mut camera = Vec2i(0, 0);
    let mut contacts = vec![tilephys::collision::Contact {
        a: ColliderID::Dynamic(0),
        b: ColliderID::Dynamic(1),
        mtv: (7, 7), // stale: the real overlap is (16, 16)
    }];
    restitute(&mut positions, &sizes, &mut velocities, &mut camera, &mut contacts);
    assert_eq!(positions, vec![Vec2i(0, 0), Vec2i(16, 16)]);
    assert_eq!(velocities, vec![Vec2i(1, 1), Vec2i(0, 0)]);
    assert_eq!(camera, Vec2i(0, 0));
}

#[test]
fn dynamic_pair_push_resolves_smaller_axis() {
    // A fresh dynamic-dynamic contact pushes entity a away from b along
    // the axis of smaller overlap, without touching velocity or camera.
    let mut positions = vec![Vec2i(0, 0), Vec2i(24, 8)];
    let mut velocities = vec![Vec2i(3, 4), Vec2i(0, 0)];
    let sizes = vec![(32usize, 32usize), (32usize, 32usize)];
    let mut camera = Vec2i(5, 6);
    let mut contacts = Vec::new();
    let chunks = vec![all_plain_chunk()];
    let mut num_jumps = 0usize;
    let mut restart = false;
    gather_contacts(&positions, &sizes, &chunks, &mut contacts, &mut num_jumps, &mut restart);
    assert_eq!(contacts.len(), 1);
    assert_eq!(contacts[0].mtv, (8, 24));
    restitute(&mut positions, &sizes, &mut velocities, &mut camera, &mut contacts);
    // horizontal overlap (8) is smaller; a sits left of b, so a moves left.
    assert_eq!(positions[0], Vec2i(-8, 0));
    assert_eq!(positions[1], Vec2i(24, 8));
    assert_eq!(velocities[0], Vec2i(3, 4));
    assert_eq!(camera, Vec2i(5, 6));
}

#[test]
fn contacts_sort_by_descending_overlap_magnitude() {
    let mut positions = vec![Vec2i(0, 0)];
    let mut velocities = vec![Vec2i(0, 0)];
    let sizes = vec![(32usize, 32usize)];
    let mut camera = Vec2i(0, 0);
    let far = Rect { x: 1000, y: 1000, w: 32, h: 32 };
    let mk = |mtv: (i32, i32)| tilephys::collision::Contact {
        a: ColliderID::Dynamic(0),
        b: ColliderID::Tile(Tile { solid: true, jump_reset: false, restart: false }, far),
        mtv,
    };
    // All stale (the tile is far away), so only the ordering matters.
    let mut contacts = vec![mk((1, 1)), mk((9, 9)), mk((3, 3))];
    restitute(&mut positions, &sizes, &mut velocities, &mut camera, &mut contacts);
    let keys: Vec<i64> = contacts
        .iter()
        .map(|c| (c.mtv.0 as i64) * (c.mtv.0 as i64) + (c.mtv.1 as i64) * (c.mtv.1 as i64))
        .collect();
    assert_eq!(keys, vec![162, 18, 2]);
}
