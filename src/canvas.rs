use vstd::prelude::*;

use crate::color::Color;

verus! {

/// Row-major position of `(x, y)` in a grid `w` pixels wide.
pub open spec fn cell(w: int, x: int, y: int) -> int {
    y * w + x
}

proof fn lemma_cell_in_grid(w: int, h: int, x: int, y: int)
    requires
        0 <= x < w,
        0 <= y < h,
    ensures
        0 <= cell(w, x, y) < w * h,
{
    assert(0 <= y * w) by (nonlinear_arith)
        requires
            0 <= y,
            0 < w,
    ;
    assert(y * w + x < w * h) by (nonlinear_arith)
        requires
            0 <= x < w,
            0 <= y < h,
    ;
}

proof fn lemma_cell_injective(w: int, x: int, y: int, i: int, j: int)
    requires
        0 <= x < w,
        0 <= i < w,
        0 <= y,
        0 <= j,
        cell(w, x, y) == cell(w, i, j),
    ensures
        x == i && y == j,
{
    if y < j {
        assert(y * w + w <= j * w) by (nonlinear_arith)
            requires
                y < j,
                0 < w,
        ;
    } else if j < y {
        assert(j * w + w <= y * w) by (nonlinear_arith)
            requires
                j < y,
                0 < w,
        ;
    }
}

/// A grid of materials, `width` columns by `height` rows; row 0 is the top.
pub struct Canvas {
    width: u32,
    height: u32,
    pixels: Vec<Color>,
}

impl Canvas {
    pub closed spec fn w(&self) -> int {
        self.width as int
    }

    pub closed spec fn h(&self) -> int {
        self.height as int
    }

    /// The material at column `x`, row `y`.
    pub closed spec fn at(&self, x: int, y: int) -> Color {
        self.pixels@[cell(self.width as int, x, y)]
    }

    pub closed spec fn wf(&self) -> bool {
        &&& self.width > 0
        &&& self.height > 0
        &&& self.pixels@.len() == self.width * self.height
        &&& self.width * self.height <= usize::MAX
    }

    pub open spec fn in_bounds(&self, x: int, y: int) -> bool {
        0 <= x < self.w() && 0 <= y < self.h()
    }

    /// A canvas of the given size with every pixel set to `color`.
    pub fn new(width: u32, height: u32, color: Color) -> (r: Canvas)
        requires
            width > 0,
            height > 0,
            width as int * height as int <= usize::MAX,
        ensures
            r.wf(),
            r.w() == width,
            r.h() == height,
            forall|x: int, y: int| r.in_bounds(x, y) ==> r.at(x, y) == color,
    {
        let n: usize = (width as usize) * (height as usize);
        let pixels = vec![color; n];
        let r = Canvas { width, height, pixels };
        assert forall|x: int, y: int| r.in_bounds(x, y) implies r.at(x, y) == color by {
            lemma_cell_in_grid(width as int, height as int, x, y);
        }
        r
    }

    pub fn width(&self) -> (r: u32)
        ensures
            r == self.w(),
    {
        self.width
    }

    pub fn height(&self) -> (r: u32)
        ensures
            r == self.h(),
    {
        self.height
    }

    /// The material at column `x`, row `y`.
    pub fn get(&self, x: u32, y: u32) -> (r: Color)
        requires
            self.wf(),
            self.in_bounds(x as int, y as int),
        ensures
            r == self.at(x as int, y as int),
    {
        proof {
            lemma_cell_in_grid(self.width as int, self.height as int, x as int, y as int);
        }
        self.pixels[(y as usize) * (self.width as usize) + (x as usize)]
    }

    /// Sets the pixel at column `x`, row `y`, and no other.
    pub fn set(&mut self, x: u32, y: u32, color: Color)
        requires
            old(self).wf(),
            old(self).in_bounds(x as int, y as int),
        ensures
            final(self).wf(),
            final(self).w() == old(self).w(),
            final(self).h() == old(self).h(),
            final(self).at(x as int, y as int) == color,
            forall|i: int, j: int|
                final(self).in_bounds(i, j) && !(i == x && j == y) ==> #[trigger] final(self).at(i, j)
                    == old(self).at(i, j),
    {
        proof {
            lemma_cell_in_grid(self.width as int, self.height as int, x as int, y as int);
        }
        let k: usize = (y as usize) * (self.width as usize) + (x as usize);
        self.pixels.set(k, color);
        proof {
            assert forall|i: int, j: int|
                self.in_bounds(i, j) && !(i == x && j == y) implies #[trigger] self.at(i, j)
                == old(self).at(i, j) by {
                lemma_cell_in_grid(self.width as int, self.height as int, i, j);
                if cell(self.width as int, i, j) == k {
                    lemma_cell_injective(self.width as int, x as int, y as int, i, j);
                }
            }
        }
    }

    /// Sets every pixel to `color`.
    pub fn fill(&mut self, color: Color)
        requires
            old(self).wf(),
        ensures
            final(self).wf(),
            final(self).w() == old(self).w(),
            final(self).h() == old(self).h(),
            forall|x: int, y: int| final(self).in_bounds(x, y) ==> final(self).at(x, y) == color,
    {
        let n = self.pixels.len();
        let mut k: usize = 0;
        while k < n
            invariant
                self.wf(),
                self.width == old(self).width,
                self.height == old(self).height,
                n == self.pixels@.len(),
                k <= n,
                forall|m: int| 0 <= m < k ==> self.pixels@[m] == color,
            decreases n - k,
        {
            self.pixels.set(k, color);
            k = k + 1;
        }
        proof {
            assert forall|x: int, y: int| self.in_bounds(x, y) implies self.at(x, y) == color by {
                lemma_cell_in_grid(self.width as int, self.height as int, x, y);
            }
        }
    }
}

} // verus!
