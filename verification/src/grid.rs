//! The world grid: a fixed square of cells, each land or water.
//!
//! Cells span `[-half, half)` in both coordinates.  Terrain changes only
//! through explicit edits; the grid itself is never resized.

use vstd::prelude::*;
use crate::config::Terrain;

verus! {

/// The terrain of the square of cells `[-half, half)` squared.
pub struct Grid {
    /// Half the side of the square.
    pub half: i32,
    /// Row-major water flags, one per cell; `true` means water.
    pub water: Vec<bool>,
}

impl Grid {
    /// Shape invariant: one flag per cell of a positive, bounded square.
    pub open spec fn wf(self) -> bool {
        &&& 1 <= self.half <= 512
        &&& self.water@.len() == 4 * self.half * self.half
    }

    /// Whether `(x, y)` is a cell of the grid.
    pub open spec fn in_bounds(self, x: int, y: int) -> bool {
        &&& -self.half <= x < self.half
        &&& -self.half <= y < self.half
    }

    /// The row-major index of cell `(x, y)`.
    pub open spec fn cell_index(self, x: int, y: int) -> int {
        (x + self.half) * (2 * self.half) + (y + self.half)
    }

    /// Whether cell `(x, y)` is water.  Cells outside the grid are not.
    pub open spec fn water_at(self, x: int, y: int) -> bool {
        self.in_bounds(x, y) && self.water@[self.cell_index(x, y)]
    }

    proof fn lemma_cell_index_in_range(self, x: int, y: int)
        requires
            self.wf(),
            self.in_bounds(x, y),
        ensures
            0 <= self.cell_index(x, y) < self.water@.len(),
    {
        let h = self.half as int;
        assert(0 <= (x + h) * (2 * h) <= (2 * h - 1) * (2 * h)) by (nonlinear_arith)
            requires
                1 <= h,
                -h <= x < h,
        ;
        assert((2 * h - 1) * (2 * h) + (2 * h - 1) < 4 * h * h) by (nonlinear_arith)
            requires
                1 <= h,
        ;
    }

    /// The row-major index of cell `(x, y)`, as the vector of flags uses it.
    fn index_of(&self, x: i32, y: i32) -> (idx: usize)
        requires
            self.wf(),
            self.in_bounds(x as int, y as int),
        ensures
            idx == self.cell_index(x as int, y as int),
            idx < self.water@.len(),
    {
        proof {
            self.lemma_cell_index_in_range(x as int, y as int);
        }
        let xo: usize = (x + self.half) as usize;
        let w: usize = (2 * self.half) as usize;
        let yo: usize = (y + self.half) as usize;
        proof {
            assert(xo as int * w as int <= 1023 * 1024) by (nonlinear_arith)
                requires
                    xo as int <= 1023,
                    w as int <= 1024,
                    0 <= xo as int,
                    0 <= w as int,
            ;
            assert(xo as int * w as int + yo as int == self.cell_index(x as int, y as int));
        }
        xo * w + yo
    }

    /// A grid of the given half-side, all land.
    pub fn new(half: i32) -> (g: Grid)
        requires
            1 <= half <= 512,
        ensures
            g.wf(),
            g.half == half,
            forall|x: int, y: int| !g.water_at(x, y),
    {
        let side: usize = (2 * half) as usize;
        proof {
            assert(side as int * side as int == 4 * (half as int) * (half as int)
                && side as int * side as int <= 1_048_576) by (nonlinear_arith)
                requires
                    side as int == 2 * (half as int),
                    1 <= half as int <= 512,
            ;
        }
        let cells: usize = side * side;
        let mut water: Vec<bool> = Vec::new();
        let mut i: usize = 0;
        while i < cells
            invariant
                i <= cells,
                water@.len() == i,
                forall|k: int| 0 <= k < i ==> !water@[k],
            decreases cells - i,
        {
            water.push(false);
            i = i + 1;
        }
        let g = Grid { half, water };
        proof {
            assert forall|x: int, y: int| !g.water_at(x, y) by {
                if g.in_bounds(x, y) {
                    g.lemma_cell_index_in_range(x, y);
                }
            }
        }
        g
    }

    /// Whether cell `(x, y)` is water.
    pub fn is_water(&self, x: i32, y: i32) -> (b: bool)
        requires
            self.wf(),
        ensures
            b == self.water_at(x as int, y as int),
    {
        if x < -self.half || x >= self.half || y < -self.half || y >= self.half {
            return false;
        }
        let idx = self.index_of(x, y);
        self.water[idx]
    }

    /// Sets the terrain of cell `(x, y)`.
    pub fn set_terrain(&mut self, x: i32, y: i32, t: Terrain)
        requires
            old(self).wf(),
            old(self).in_bounds(x as int, y as int),
        ensures
            final(self).wf(),
            final(self).half == old(self).half,
            final(self).water_at(x as int, y as int) == (t is Water),
            forall|a: int, b: int|
                !(a == x as int && b == y as int) ==>
                    final(self).water_at(a, b) == old(self).water_at(a, b),
    {
        let idx = self.index_of(x, y);
        let flag = match t {
            Terrain::Water => true,
            Terrain::Land => false,
        };
        self.water.set(idx, flag);
        proof {
            let g = *self;
            assert forall|a: int, b: int|
                !(a == x as int && b == y as int) implies
                    g.water_at(a, b) == old(self).water_at(a, b) by {
                if g.in_bounds(a, b) {
                    g.lemma_cell_index_in_range(a, b);
                    if g.cell_index(a, b) == g.cell_index(x as int, y as int) {
                        Grid::lemma_cell_index_injective(g, a, b, x as int, y as int);
                    }
                }
            }
        }
    }

    proof fn lemma_cell_index_injective(self, x1: int, y1: int, x2: int, y2: int)
        requires
            self.wf(),
            self.in_bounds(x1, y1),
            self.in_bounds(x2, y2),
            self.cell_index(x1, y1) == self.cell_index(x2, y2),
        ensures
            x1 == x2 && y1 == y2,
    {
        let h = self.half as int;
        assert(x1 == x2 && y1 == y2) by (nonlinear_arith)
            requires
                1 <= h,
                -h <= x1 < h,
                -h <= y1 < h,
                -h <= x2 < h,
                -h <= y2 < h,
                (x1 + h) * (2 * h) + (y1 + h) == (x2 + h) * (2 * h) + (y2 + h),
        ;
    }
}

} // verus!
