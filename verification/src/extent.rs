//! Axis-aligned rectangles of lattice cells and their row-major enumeration.

use vstd::prelude::*;
use vstd::arithmetic::div_mod::lemma_fundamental_div_mod_converse;
use crate::vector::{Dimension2, IntVector2};

verus! {

/// A half-open rectangle of cells: origin plus unsigned width and height.
#[derive(Debug, Copy, Clone, PartialEq, Eq, Structural)]
pub struct IntExtent2 {
    origin: IntVector2,
    size: Dimension2,
}

impl IntExtent2 {
    pub closed spec fn spec_left(&self) -> i32 {
        self.origin.x
    }

    pub closed spec fn spec_top(&self) -> i32 {
        self.origin.y
    }

    pub closed spec fn spec_width(&self) -> u32 {
        self.size.spec_width()
    }

    pub closed spec fn spec_height(&self) -> u32 {
        self.size.spec_height()
    }

    /// The first column to the right of the rectangle, as a mathematical integer.
    pub open spec fn right_bound(&self) -> int {
        self.spec_left() + self.spec_width()
    }

    /// The first row below the rectangle, as a mathematical integer.
    pub open spec fn bottom_bound(&self) -> int {
        self.spec_top() + self.spec_height()
    }

    /// Both far edges are representable as `i32`.
    pub open spec fn fits(&self) -> bool {
        self.right_bound() <= i32::MAX && self.bottom_bound() <= i32::MAX
    }

    pub open spec fn spec_contains(&self, x: int, y: int) -> bool {
        self.spec_left() <= x < self.right_bound() && self.spec_top() <= y < self.bottom_bound()
    }

    /// Number of cells inside the rectangle.
    pub open spec fn cell_count(&self) -> nat {
        (self.spec_width() * self.spec_height()) as nat
    }

    /// The `k`-th cell in row-major order (left to right, then top to bottom).
    pub open spec fn cell_at(&self, k: int) -> IntVector2 {
        IntVector2 {
            x: (self.spec_left() + k % (self.spec_width() as int)) as i32,
            y: (self.spec_top() + k / (self.spec_width() as int)) as i32,
        }
    }

    /// All cells of the rectangle in row-major order.
    pub open spec fn cells(&self) -> Seq<IntVector2> {
        Seq::new(self.cell_count(), |k: int| self.cell_at(k))
    }

    /// The rectangle with the given top-left cell and size.
    pub closed spec fn spec_new(x: i32, y: i32, width: u32, height: u32) -> Self {
        IntExtent2 { origin: IntVector2 { x, y }, size: Dimension2::spec_new(width, height) }
    }

    /// What `spec_new` makes has the given edges and size.
    pub proof fn lemma_spec_new(x: i32, y: i32, width: u32, height: u32)
        ensures
            Self::spec_new(x, y, width, height).spec_left() == x,
            Self::spec_new(x, y, width, height).spec_top() == y,
            Self::spec_new(x, y, width, height).spec_width() == width,
            Self::spec_new(x, y, width, height).spec_height() == height,
    {
        Dimension2::lemma_spec_new(width, height);
    }

    #[verifier::when_used_as_spec(spec_new)]
    pub fn new(x: i32, y: i32, width: u32, height: u32) -> (e: Self)
        ensures
            e == Self::spec_new(x, y, width, height),
            e.spec_left() == x,
            e.spec_top() == y,
            e.spec_width() == width,
            e.spec_height() == height,
    {
        IntExtent2 { origin: IntVector2::new(x, y), size: Dimension2::new(width, height) }
    }

    #[verifier::when_used_as_spec(spec_left)]
    pub fn left(&self) -> (r: i32)
        ensures
            r == self.spec_left(),
    {
        self.origin.x
    }

    pub fn right(&self) -> (r: i32)
        requires
            self.right_bound() <= i32::MAX,
        ensures
            r == self.right_bound(),
    {
        (self.origin.x as i64 + self.size.width() as i64) as i32
    }

    #[verifier::when_used_as_spec(spec_top)]
    pub fn top(&self) -> (r: i32)
        ensures
            r == self.spec_top(),
    {
        self.origin.y
    }

    pub fn bottom(&self) -> (r: i32)
        requires
            self.bottom_bound() <= i32::MAX,
        ensures
            r == self.bottom_bound(),
    {
        (self.origin.y as i64 + self.size.height() as i64) as i32
    }

    #[verifier::when_used_as_spec(spec_width)]
    pub fn width(&self) -> (r: u32)
        ensures
            r == self.spec_width(),
    {
        self.size.width()
    }

    #[verifier::when_used_as_spec(spec_height)]
    pub fn height(&self) -> (r: u32)
        ensures
            r == self.spec_height(),
    {
        self.size.height()
    }

    /// Half-open membership test; total, also where the far edges exceed `i32`.
    pub fn contains(&self, x: i32, y: i32) -> (b: bool)
        ensures
            b == self.spec_contains(x as int, y as int),
    {
        let right: i64 = self.origin.x as i64 + self.size.width() as i64;
        let bottom: i64 = self.origin.y as i64 + self.size.height() as i64;
        x >= self.origin.x && (x as i64) < right && y >= self.origin.y && (y as i64) < bottom
    }

    /// A fresh cursor over the cells, positioned before the first one.
    pub fn iter(&self) -> (it: IntExtent2Iterator)
        requires
            self.fits(),
        ensures
            it.wf(),
            it.extent() == *self,
            it.position() == 0,
    {
        IntExtent2Iterator::new(self)
    }

    /// Every enumerated cell lies inside the rectangle, and every cell inside
    /// is enumerated exactly at its row-major index.
    pub proof fn lemma_cells_are_contained(&self)
        requires
            self.fits(),
        ensures
            self.cells().len() == self.spec_width() * self.spec_height(),
            forall|k: int|
                0 <= k < self.cells().len() ==> self.spec_contains(
                    (#[trigger] self.cells()[k]).x as int,
                    self.cells()[k].y as int,
                ),
            forall|x: int, y: int| #[trigger]
                self.spec_contains(x, y) ==> {
                    let k = (y - self.spec_top()) * self.spec_width() + (x - self.spec_left());
                    0 <= k < self.cells().len() && self.cells()[k].x == x && self.cells()[k].y == y
                },
    {
        let w = self.spec_width() as int;
        let h = self.spec_height() as int;
        assert(w * h >= 0) by (nonlinear_arith)
            requires
                w >= 0,
                h >= 0,
        ;
        assert forall|k: int| 0 <= k < self.cells().len() implies self.spec_contains(
            (#[trigger] self.cells()[k]).x as int,
            self.cells()[k].y as int,
        ) by {
            Self::lemma_row_major_split(k, w, h);
        }
        assert forall|x: int, y: int| #[trigger] self.spec_contains(x, y) implies {
            let k = (y - self.spec_top()) * self.spec_width() + (x - self.spec_left());
            0 <= k < self.cells().len() && self.cells()[k].x == x && self.cells()[k].y == y
        } by {
            let row = y - self.spec_top();
            let col = x - self.spec_left();
            Self::lemma_row_major_join(row, col, w, h);
        }
    }

    /// For an index below `w * h`: its column `k % w` is below `w` and its row
    /// `k / w` is below `h`.
    pub proof fn lemma_row_major_split(k: int, w: int, h: int)
        requires
            0 <= k < w * h,
            0 <= w,
            0 <= h,
        ensures
            w > 0,
            0 <= k % w < w,
            0 <= k / w < h,
    {
        assert(w > 0) by (nonlinear_arith)
            requires
                0 <= k < w * h,
                0 <= w,
        ;
        assert(0 <= k % w < w && 0 <= k / w < h) by (nonlinear_arith)
            requires
                0 <= k < w * h,
                0 < w,
                0 <= h,
        ;
    }

    /// Row `row` and column `col` meet at index `row * w + col`.
    pub proof fn lemma_row_major_join(row: int, col: int, w: int, h: int)
        requires
            0 <= row < h,
            0 <= col < w,
        ensures
            0 <= row * w + col < w * h,
            (row * w + col) % w == col,
            (row * w + col) / w == row,
    {
        assert(0 <= row * w + col < w * h) by (nonlinear_arith)
            requires
                0 <= row < h,
                0 <= col < w,
        ;
        lemma_fundamental_div_mod_converse(row * w + col, w, row, col);
    }
}

impl Default for IntExtent2 {
    fn default() -> (e: Self)
        ensures
            e.spec_left() == 0,
            e.spec_top() == 0,
            e.spec_width() == 0,
            e.spec_height() == 0,
    {
        IntExtent2 { origin: IntVector2::new(0, 0), size: Dimension2::new(0, 0) }
    }
}

/// A restartable cursor over the cells of an extent, in row-major order.
#[derive(Debug, Copy, Clone)]
pub struct IntExtent2Iterator {
    extent: IntExtent2,
    current: IntVector2,
}

impl IntExtent2Iterator {
    /// The rectangle being walked.
    pub closed spec fn extent(&self) -> IntExtent2 {
        self.extent
    }

    /// How many cells have been handed out so far.
    pub closed spec fn position(&self) -> nat {
        if self.extent.spec_width() == 0 {
            0
        } else {
            ((self.current.y - self.extent.spec_top()) * self.extent.spec_width() + (self.current.x
                - self.extent.spec_left())) as nat
        }
    }

    /// The cursor lies on a cell of the extent, or just past its last row.
    pub closed spec fn wf(&self) -> bool {
        &&& self.extent.fits()
        &&& self.extent.spec_top() <= self.current.y <= self.extent.bottom_bound()
        &&& self.extent.spec_left() <= self.current.x
        &&& self.extent.spec_width() > 0 ==> self.current.x < self.extent.right_bound()
        &&& self.extent.spec_width() == 0 ==> self.current == self.extent.origin
        &&& self.current.y == self.extent.bottom_bound() ==> self.current.x
            == self.extent.spec_left()
    }

    pub fn new(extent: &IntExtent2) -> (it: Self)
        requires
            extent.fits(),
        ensures
            it.wf(),
            it.extent() == *extent,
            it.position() == 0,
    {
        IntExtent2Iterator { extent: *extent, current: IntVector2::new(extent.left(), extent.top()) }
    }

    /// A cursor never stands past the last cell.
    pub proof fn lemma_position_in_range(&self)
        requires
            self.wf(),
        ensures
            self.position() <= self.extent().cell_count(),
    {
        let w = self.extent.spec_width() as int;
        let h = self.extent.spec_height() as int;
        let row = self.current.y - self.extent.spec_top();
        let col = self.current.x - self.extent.spec_left();
        if w > 0 {
            if row < h {
                IntExtent2::lemma_row_major_join(row, col, w, h);
            } else {
                assert(row * w + col == w * h) by (nonlinear_arith)
                    requires
                        row == h,
                        col == 0,
                ;
            }
        } else {
            assert(w * h == 0) by (nonlinear_arith)
                requires
                    w == 0,
            ;
        }
    }

    /// Hands out the next cell, or `None` once all cells have been handed out.
    pub fn next(&mut self) -> (r: Option<IntVector2>)
        requires
            old(self).wf(),
        ensures
            final(self).wf(),
            final(self).extent() == old(self).extent(),
            old(self).position() <= old(self).extent().cell_count(),
            old(self).position() < old(self).extent().cell_count() ==> r == Some(
                old(self).extent().cells()[old(self).position() as int],
            ) && final(self).position() == old(self).position() + 1,
            old(self).position() >= old(self).extent().cell_count() ==> r.is_none() && *final(self)
                == *old(self),
    {
        let ghost w = self.extent.spec_width() as int;
        let ghost h = self.extent.spec_height() as int;
        let ghost row = self.current.y - self.extent.spec_top();
        let ghost col = self.current.x - self.extent.spec_left();
        if self.extent.width() == 0 || self.current.y >= self.extent.bottom() {
            proof {
                if w != 0 {
                    assert(row * w + col == w * h) by (nonlinear_arith)
                        requires
                            row == h,
                            col == 0,
                    ;
                } else {
                    assert(w * h == 0) by (nonlinear_arith)
                        requires
                            w == 0,
                    ;
                }
            }
            return None;
        }
        proof {
            IntExtent2::lemma_row_major_join(row, col, w, h);
        }
        let result = self.current;
        if self.current.x + 1 >= self.extent.right() {
            self.current = IntVector2::new(self.extent.left(), self.current.y + 1);
            proof {
                assert((row + 1) * w + 0 == row * w + col + 1) by (nonlinear_arith)
                    requires
                        col == w - 1,
                ;
            }
        } else {
            self.current = IntVector2::new(self.current.x + 1, self.current.y);
        }
        Some(result)
    }
}

} // verus!
