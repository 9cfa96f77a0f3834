//! Simulation core of a tile-based 2D action game: axis-aligned rectangle
//! collision and restitution against a chunked tile world, plus the
//! mode-switching controller that drives exploration and platforming physics.

pub mod collision;
pub mod states;
pub mod tiles;
pub mod types;
