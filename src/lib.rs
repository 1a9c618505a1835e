//! A constraint-based particle simulator: Verlet integration under gravity,
//! a circular boundary, pairwise collision resolution and distance links that
//! form a chain anchored at both ends. All quantities are fixed-point integers.
use vstd::prelude::*;

pub mod fixed;
pub mod laws;
pub mod object;
pub mod world;

pub use crate::fixed::{Vec2, COORD_LIMIT, SCALE};
pub use crate::object::{Color, VerletObject};
pub use crate::world::{generate_chain_links, generate_objects, ChainLink, Master};

verus! {

} // verus!
