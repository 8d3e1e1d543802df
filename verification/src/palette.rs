//! Palettes: a grid of colors indexed by chroma coordinates.
//!
//! The palette is generic over its color type; the indexing rules (grid
//! size, clamping to the grid) are independent of how a color is stored.
use vstd::prelude::*;

verus! {

/// A `width` x `height` grid of colors stored row-major:
/// `colors[y * width + x]`.  A 1D palette has `height == 1`.
#[derive(Clone, Debug, PartialEq)]
pub struct Palette<C> {
    pub colors: Vec<C>,
    pub width: u32,
    pub height: u32,
    pub name: Option<String>,
}

impl<C> Palette<C> {
    /// The grid holds exactly `width * height` colors, a count that fits in
    /// a `u32`.
    pub open spec fn wf(&self) -> bool {
        &&& self.width * self.height <= u32::MAX
        &&& self.colors@.len() == self.width * self.height
    }

    /// Row-major index of the pixel at (x, y), each coordinate clamped to
    /// the grid.
    pub open spec fn pixel_index(&self, x: u32, y: u32) -> int {
        let cx = if x < self.width - 1 { x as int } else { self.width - 1 };
        let cy = if y < self.height - 1 { y as int } else { self.height - 1 };
        cy * self.width + cx
    }

    /// Create a palette from a flat color list.  The list must hold exactly
    /// `width * height` colors.
    pub fn new(colors: Vec<C>, width: u32, height: u32, name: Option<String>) -> (p: Self)
        requires
            width * height <= u32::MAX,
            colors@.len() == width * height,
        ensures
            p.wf(),
            p.colors@ == colors@,
            p.width == width,
            p.height == height,
            p.name == name,
    {
        Palette { colors, width, height, name }
    }
}

impl<C: Copy> Palette<C> {
    /// The color at integer coordinates, each clamped to the grid.  The
    /// grid must be non-empty and its row-major index must fit in a `u32`
    /// and in the color list.
    pub fn get_pixel(&self, x: u32, y: u32) -> (c: C)
        requires
            self.width > 0,
            self.height > 0,
            self.width * self.height <= self.colors@.len(),
            self.width * self.height - 1 <= u32::MAX,
        ensures
            0 <= self.pixel_index(x, y) < self.colors@.len(),
            c == self.colors@[self.pixel_index(x, y)],
    {
        let x = if x < self.width - 1 { x } else { self.width - 1 };
        let y = if y < self.height - 1 { y } else { self.height - 1 };
        proof {
            assert(y * self.width + x < self.width * self.height) by (nonlinear_arith)
                requires
                    x < self.width,
                    y < self.height,
            ;
            assert(y * self.width <= y * self.width + x);
            assert(0 <= y * self.width) by (nonlinear_arith)
                requires
                    0 <= y,
                    0 <= self.width,
            ;
        }
        let idx = (y * self.width + x) as usize;
        self.colors[idx]
    }
}

} // verus!
