use vstd::prelude::*;

verus! {

/// A coarse material kind, for callers that classify cells without going
/// through the catalog.
#[derive(Debug, Clone, Copy, PartialEq, Eq, Structural, PartialOrd)]
pub enum CellType {
    Empty,
    Wall,
    Sand,
    Water,
    Gas,
}

impl Default for CellType {
    fn default() -> (r: CellType)
        ensures
            r == CellType::Empty,
    {
        CellType::Empty
    }
}

} // verus!
