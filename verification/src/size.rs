use vstd::prelude::*;
use crate::position::{Position, RelativePosition};

verus! {

/// Width and height of a rectangular region, in cells.
#[derive(Debug, Clone, Copy, PartialEq, Eq, Structural, PartialOrd, Ord, Hash, Default)]
pub struct AreaSize {
    pub width: usize,
    pub height: usize,
}

impl AreaSize {
    pub fn new(width: usize, height: usize) -> (r: AreaSize)
        ensures
            r.width == width,
            r.height == height,
    {
        AreaSize { width, height }
    }

    pub fn splat(size: usize) -> (r: AreaSize)
        ensures
            r.width == size,
            r.height == size,
    {
        AreaSize::new(size, size)
    }

    pub open spec fn spec_area(self) -> int {
        self.width * self.height
    }

    pub fn area(&self) -> (r: usize)
        requires
            self.spec_area() <= usize::MAX,
        ensures
            r == self.spec_area(),
    {
        self.width * self.height
    }

    /// Row-major decomposition of a linear index into (x, y) coordinates.
    pub fn index_to_coords(&self, index: usize) -> (r: RelativePosition)
        requires
            self.spec_area() <= usize::MAX,
            index < self.spec_area(),
            self.width <= u32::MAX,
            self.height <= u32::MAX,
        ensures
            r.x == index as int % self.width as int,
            r.y == index as int / self.width as int,
            r.x < self.width,
            r.y < self.height,
    {
        assert(self.width > 0) by (nonlinear_arith)
            requires index < self.width * self.height, 0 <= index,
        ;

        let x = (index % self.width) as u32;
        let y = (index / self.width) as u32;

        proof {
            vstd::arithmetic::div_mod::lemma_mod_pos_bound(index as int, self.width as int);
            assert((index as int) / (self.width as int) < self.height as int) by (nonlinear_arith)
                requires
                    index < self.width * self.height,
                    self.width > 0,
                    0 <= index,
            ;
        }

        RelativePosition { x, y }
    }

    /// Row-major composition of (x, y) coordinates into a linear index.
    pub fn coords_to_index(&self, position: RelativePosition) -> (r: usize)
        requires
            self.spec_area() <= usize::MAX,
            position.x < self.width,
            position.y < self.height,
        ensures
            r == position.y * self.width + position.x,
            r < self.spec_area(),
    {
        let x = position.x as usize;
        let y = position.y as usize;

        proof {
            assert(y * self.width + x < self.width * self.height) by (nonlinear_arith)
                requires
                    0 <= x < self.width,
                    0 <= y < self.height,
            ;
        }

        y * self.width + x
    }

    /// Whether a rectangle at `rect_pos` of size `rect_size` overlaps this
    /// region anchored at the origin.
    pub fn is_intersects_with_rect(self, rect_pos: Position, rect_size: AreaSize) -> (r: bool)
        requires
            self.width <= i32::MAX,
            self.height <= i32::MAX,
            rect_size.width <= i32::MAX,
            rect_size.height <= i32::MAX,
            rect_pos.x + rect_size.width <= i32::MAX,
            rect_pos.y + rect_size.height <= i32::MAX,
        ensures
            r == !(rect_pos.x >= self.width || rect_pos.y >= self.height
                || rect_pos.x + rect_size.width <= 0 || rect_pos.y + rect_size.height <= 0),
    {
        if rect_pos.x >= self.width as i32 || rect_pos.y >= self.height as i32 {
            return false;
        }

        if rect_pos.x + rect_size.width as i32 <= 0 || rect_pos.y + rect_size.height as i32 <= 0 {
            return false;
        }

        true
    }
}

/// The pixel dimensions of a drawing surface, for callers that copy cells
/// onto one.
pub trait GetAreaSize {
    fn get_area_size(&self) -> AreaSize;
}

} // verus!
