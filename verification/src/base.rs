//! The base: the singleton defense objective at the origin. Its health
//! reaching zero ends the session in a loss.

use vstd::prelude::*;

verus! {

/// Radius of the base, in subpixel world units.
pub const BASE_RADIUS: i64 = 30_000;

/// Health the base starts with, in health units.
pub const BASE_INITIAL_HEALTH: u64 = 1_000_000;

/// The defense objective. It sits at the world origin.
#[derive(Clone, Copy, Debug, Eq, PartialEq, Structural)]
pub struct Base {
    pub health: u64,
}

impl Base {
    /// A fresh base at full health.
    pub fn new() -> (b: Base)
        ensures
            b.health == BASE_INITIAL_HEALTH,
    {
        Base { health: BASE_INITIAL_HEALTH }
    }
}

} // verus!
