use vstd::prelude::*;
use crate::cell::Cell;

verus! {

/// What a cell decided to do in one step: nothing, become another cell,
/// or trade places with the cell at a linear index.
#[derive(Debug, Clone, Copy)]
pub enum Action {
    /// Do nothing.
    Idle,
    /// Update the state of the cell.
    Transform(Cell),
    /// Swap the current cell with the cell at the given index.
    Swap(usize),
}

} // verus!
