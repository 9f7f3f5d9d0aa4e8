//! The directories that hold a server's world.

use vstd::prelude::*;

verus! {

/// The directories of a server that are removed when its world is reset:
/// the world itself and its two other dimensions.
pub const WORLD_DIRECTORIES: [&'static str; 3] = ["world", "world_nether", "world_the_end"];

} // verus!
