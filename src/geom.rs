//! Integer positions on the world grid.
use vstd::prelude::*;

verus! {

/// A position, or a chunk coordinate, on the world grid.
#[derive(Clone, Copy, Debug, PartialEq, Eq, Structural, Hash)]
pub struct Position {
    pub x: i32,
    pub y: i32,
}

} // verus!
