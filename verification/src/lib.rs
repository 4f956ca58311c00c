//! Collision subsystem of a 2D side-scrolling action game.
//!
//! The core is a spatial index (a quadtree) over the static level geometry,
//! together with a pure classifier that decides which side of an obstacle a
//! moving body has struck.  Around that core sit the small computational
//! pieces of the game that feed it: tile-grid layout, floor layout, character
//! sprite tables, and the per-tick grounding decision.  Rendering, input and
//! asset I/O live outside this crate and talk to it through plain values.
//!
//! All geometry is in integer pixel coordinates.

pub mod character;
pub mod collisions;
pub mod enemy;
pub mod floor;
pub mod geometry;
pub mod quadtree;
pub mod state;
pub mod tileset;
