//! Simulation core of a top-down arcade shooter: a single craft fights waves
//! of enemies that split on impact, inside a finite arena with toroidal wrap
//! for most objects.
//!
//! All world quantities are held in fixed-point integers: positions and sizes
//! in thousandths of a world unit, angles in thousandths of a degree. The
//! per-frame simulation (motion integration, oriented-rectangle collision,
//! spawn/despawn lifecycle, scoring, and the three-state game flow) is
//! verified; rendering, input plumbing and the remote leaderboard transport
//! stay outside and talk to the library through plain values.

pub mod angle;
pub mod bounds;
pub mod collision;
pub mod entity;
pub mod frame;
pub mod geom;
pub mod motion;
pub mod num;
pub mod player;
pub mod rng;
pub mod text;
pub mod world;
