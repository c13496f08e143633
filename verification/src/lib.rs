//! Chunk streaming and procedural terrain generation for an infinite
//! 2D tile world.
//!
//! The library decides which fixed-size chunks of an unbounded grid are
//! near a moving viewpoint, materializes their tiles from a deterministic
//! seeded noise field, and evicts chunks that fall out of range, while
//! guaranteeing that each chunk is tracked at most once at any time.
//! All positions and noise samples are plain integers: noise values and
//! world positions are held in fixed-point units so that every step of
//! the pipeline is a total, verified function of its inputs.

pub mod camera;
pub mod chunk;
pub mod coords;
pub mod noise;
pub mod registry;
pub mod stream;
pub mod tile;
