//! Rectangular rooms, as map generation places them.

use std::ops::Range;
use vstd::prelude::*;
use crate::extent::IntExtent2;
use crate::random::random_in_range;
use crate::vector::{Dimension2, IntVector2};

verus! {

/// A rectangle of cells, given by its top-left cell and its size.
#[derive(Debug, Clone, Copy, PartialEq, Eq, Structural)]
pub struct Room {
    pos: IntVector2,
    size: Dimension2,
}

impl Room {
    pub closed spec fn spec_pos(&self) -> IntVector2 {
        self.pos
    }

    pub closed spec fn spec_size(&self) -> Dimension2 {
        self.size
    }

    /// Column of the left wall.
    pub open spec fn x0(&self) -> int {
        self.spec_pos().x as int
    }

    /// Row of the top wall.
    pub open spec fn y0(&self) -> int {
        self.spec_pos().y as int
    }

    pub open spec fn w(&self) -> int {
        self.spec_size().spec_width() as int
    }

    pub open spec fn h(&self) -> int {
        self.spec_size().spec_height() as int
    }

    /// The last column and row of the room, and the column and row behind
    /// them, are representable.
    pub open spec fn fits(&self) -> bool {
        &&& i32::MIN <= self.x0() + self.w() - 1
        &&& self.x0() + self.w() <= i32::MAX
        &&& i32::MIN <= self.y0() + self.h() - 1
        &&& self.y0() + self.h() <= i32::MAX
    }

    pub open spec fn cell(x: int, y: int) -> IntVector2 {
        IntVector2 { x: x as i32, y: y as i32 }
    }

    /// The `k`-th border cell: first the top and bottom walls, column by
    /// column, then the left and right walls, row by row. Corners occur twice.
    pub open spec fn border_cell(&self, k: int) -> IntVector2 {
        if k < 2 * self.w() {
            Self::cell(
                self.x0() + k / 2,
                if k % 2 == 0 {
                    self.y0()
                } else {
                    self.y0() + self.h() - 1
                },
            )
        } else {
            let r = k - 2 * self.w();
            Self::cell(
                if r % 2 == 0 {
                    self.x0()
                } else {
                    self.x0() + self.w() - 1
                },
                self.y0() + r / 2,
            )
        }
    }

    /// The cells of the four walls.
    pub open spec fn spec_border_cells(&self) -> Seq<IntVector2> {
        Seq::new((2 * self.w() + 2 * self.h()) as nat, |k: int| self.border_cell(k))
    }

    /// The cells of the block of `columns` by `rows` cells whose top-left
    /// cell is `(x, y)`, column by column.
    pub open spec fn block_cells(x: int, y: int, columns: int, rows: int) -> Seq<IntVector2> {
        if columns <= 0 || rows <= 0 {
            Seq::empty()
        } else {
            Seq::new((columns * rows) as nat, |k: int| Self::cell(x + k / rows, y + k % rows))
        }
    }

    /// The cells strictly inside the walls, column by column.
    pub open spec fn spec_interior_cells(&self) -> Seq<IntVector2> {
        Self::block_cells(self.x0() + 1, self.y0() + 1, self.w() - 2, self.h() - 2)
    }

    /// All cells of the room, column by column.
    pub open spec fn spec_cells(&self) -> Seq<IntVector2> {
        Self::block_cells(self.x0(), self.y0(), self.w(), self.h())
    }

    /// Two rooms intersect where their rectangles, taken with the column and
    /// row behind them, overlap: rooms that merely touch intersect too.
    pub open spec fn spec_intersects(&self, other: &Room) -> bool {
        &&& self.x0() <= other.x0() + other.w()
        &&& self.x0() + self.w() >= other.x0()
        &&& self.y0() <= other.y0() + other.h()
        &&& self.y0() + self.h() >= other.y0()
    }

    pub fn new(pos: IntVector2, size: Dimension2) -> (r: Self)
        ensures
            r.spec_pos() == pos,
            r.spec_size() == size,
    {
        Room { pos, size }
    }

    #[verifier::when_used_as_spec(spec_pos)]
    pub fn pos(&self) -> (p: IntVector2)
        ensures
            p == self.spec_pos(),
    {
        self.pos
    }

    #[verifier::when_used_as_spec(spec_size)]
    pub fn size(&self) -> (d: Dimension2)
        ensures
            d == self.spec_size(),
    {
        self.size
    }

    pub fn border_cells(&self) -> (cells: Vec<IntVector2>)
        requires
            self.fits(),
        ensures
            cells@ == self.spec_border_cells(),
    {
        let mut cells: Vec<IntVector2> = Vec::new();
        let x0: i64 = self.pos.x as i64;
        let y0: i64 = self.pos.y as i64;
        let w: i64 = self.size.width() as i64;
        let h: i64 = self.size.height() as i64;
        let mut x: i64 = x0;
        while x < x0 + w
            invariant
                self.fits(),
                x0 == self.x0(),
                y0 == self.y0(),
                w == self.w(),
                h == self.h(),
                x0 <= x <= x0 + w,
                cells@.len() == 2 * (x - x0),
                forall|k: int| 0 <= k < cells@.len() ==> cells@[k] == self.border_cell(k),
            decreases x0 + w - x,
        {
            cells.push(IntVector2::new(x as i32, y0 as i32));
            cells.push(IntVector2::new(x as i32, (y0 + h - 1) as i32));
            x = x + 1;
        }
        let mut y: i64 = y0;
        while y < y0 + h
            invariant
                self.fits(),
                x0 == self.x0(),
                y0 == self.y0(),
                w == self.w(),
                h == self.h(),
                y0 <= y <= y0 + h,
                cells@.len() == 2 * w + 2 * (y - y0),
                forall|k: int| 0 <= k < cells@.len() ==> cells@[k] == self.border_cell(k),
            decreases y0 + h - y,
        {
            cells.push(IntVector2::new(x0 as i32, y as i32));
            cells.push(IntVector2::new((x0 + w - 1) as i32, y as i32));
            y = y + 1;
        }
        assert(cells@ =~= self.spec_border_cells());
        cells
    }

    pub fn interior_cells(&self) -> (cells: Vec<IntVector2>)
        requires
            self.fits(),
        ensures
            cells@ == self.spec_interior_cells(),
    {
        let x0: i64 = self.pos.x as i64 + 1;
        let y0: i64 = self.pos.y as i64 + 1;
        let columns: i64 = self.size.width() as i64 - 2;
        let rows: i64 = self.size.height() as i64 - 2;
        block(x0, y0, columns, rows)
    }

    pub fn intersects(&self, other: &Room) -> (b: bool)
        ensures
            b == self.spec_intersects(other),
    {
        let left: i64 = self.pos.x as i64;
        let top: i64 = self.pos.y as i64;
        let other_left: i64 = other.pos.x as i64;
        let other_top: i64 = other.pos.y as i64;
        left <= other_left + other.size.width() as i64 && left + self.size.width() as i64
            >= other_left && top <= other_top + other.size.height() as i64 && top
            + self.size.height() as i64 >= other_top
    }

    /// The cell half the width right of and half the height below the
    /// top-left cell, halves rounded down.
    pub fn center(&self) -> (c: IntVector2)
        requires
            self.x0() + self.w() / 2 <= i32::MAX,
            self.y0() + self.h() / 2 <= i32::MAX,
        ensures
            c.x == self.x0() + self.w() / 2,
            c.y == self.y0() + self.h() / 2,
    {
        IntVector2::new(
            (self.pos.x as i64 + self.size.width() as i64 / 2) as i32,
            (self.pos.y as i64 + self.size.height() as i64 / 2) as i32,
        )
    }

    /// A room at a random cell of the square from `(0, 0)` to
    /// `(width, height)`, both excluded, 5 to 14 cells wide and high.
    pub fn create_random(width: i32, height: i32) -> (r: Self)
        requires
            width > 0,
            height > 0,
        ensures
            0 <= r.x0() < width,
            0 <= r.y0() < height,
            5 <= r.w() < 15,
            5 <= r.h() < 15,
    {
        let x = random_in_range(0, width as i64);
        let y = random_in_range(0, height as i64);
        let w = random_in_range(5, 15);
        let h = random_in_range(5, 15);
        Self::new(IntVector2::new(x as i32, y as i32), Dimension2::new(w as u32, h as u32))
    }

    /// A room at a random cell of the rectangle of `size` at `top_left`, its
    /// width and height drawn from the two ranges of `room_size_range`.
    pub fn create_random_in_rect(
        top_left: IntVector2,
        size: Dimension2,
        room_size_range: (Range<u16>, Range<u16>),
    ) -> (r: Self)
        requires
            size.spec_width() > 0,
            size.spec_height() > 0,
            top_left.x + size.spec_width() - 1 <= i32::MAX,
            top_left.y + size.spec_height() - 1 <= i32::MAX,
            room_size_range.0.start < room_size_range.0.end,
            room_size_range.1.start < room_size_range.1.end,
        ensures
            top_left.x <= r.x0() < top_left.x + size.spec_width(),
            top_left.y <= r.y0() < top_left.y + size.spec_height(),
            room_size_range.0.start <= r.w() < room_size_range.0.end,
            room_size_range.1.start <= r.h() < room_size_range.1.end,
    {
        let x = random_in_range(top_left.x as i64, top_left.x as i64 + size.width() as i64);
        let y = random_in_range(top_left.y as i64, top_left.y as i64 + size.height() as i64);
        let w = random_in_range(room_size_range.0.start as i64, room_size_range.0.end as i64);
        let h = random_in_range(room_size_range.1.start as i64, room_size_range.1.end as i64);
        Self::new(IntVector2::new(x as i32, y as i32), Dimension2::new(w as u32, h as u32))
    }

    pub fn cells(&self) -> (cells: Vec<IntVector2>)
        requires
            self.fits(),
        ensures
            cells@ == self.spec_cells(),
    {
        block(
            self.pos.x as i64,
            self.pos.y as i64,
            self.size.width() as i64,
            self.size.height() as i64,
        )
    }
}

/// The cells of a block, column by column.
fn block(x0: i64, y0: i64, columns: i64, rows: i64) -> (cells: Vec<IntVector2>)
    requires
        -3 <= columns <= u32::MAX,
        -3 <= rows <= u32::MAX,
        columns > 0 && rows > 0 ==> {
            &&& i32::MIN <= x0
            &&& x0 + columns - 1 <= i32::MAX
            &&& i32::MIN <= y0
            &&& y0 + rows - 1 <= i32::MAX
        },
    ensures
        cells@ == Room::block_cells(x0 as int, y0 as int, columns as int, rows as int),
{
    let mut cells: Vec<IntVector2> = Vec::new();
    if columns <= 0 || rows <= 0 {
        return cells;
    }
    let mut i: i64 = 0;
    while i < columns
        invariant
            0 < columns <= u32::MAX,
            0 < rows <= u32::MAX,
            i32::MIN <= x0,
            x0 + columns - 1 <= i32::MAX,
            i32::MIN <= y0,
            y0 + rows - 1 <= i32::MAX,
            0 <= i <= columns,
            cells@.len() == i * rows,
            forall|k: int|
                0 <= k < cells@.len() ==> cells@[k] == Room::cell(x0 + k / (rows as int), y0 + k % (
                rows as int)),
        decreases columns - i,
    {
        let mut j: i64 = 0;
        while j < rows
            invariant
                0 < columns <= u32::MAX,
                0 < rows <= u32::MAX,
                i32::MIN <= x0,
                x0 + columns - 1 <= i32::MAX,
                i32::MIN <= y0,
                y0 + rows - 1 <= i32::MAX,
                0 <= i < columns,
                0 <= j <= rows,
                cells@.len() == i * rows + j,
                forall|k: int|
                    0 <= k < cells@.len() ==> cells@[k] == Room::cell(
                        x0 + k / (rows as int),
                        y0 + k % (rows as int),
                    ),
            decreases rows - j,
        {
            proof {
                IntExtent2::lemma_row_major_join(i as int, j as int, rows as int, columns as int);
            }
            cells.push(IntVector2::new((x0 + i) as i32, (y0 + j) as i32));
            j = j + 1;
        }
        proof {
            assert((i + 1) * rows == i * rows + rows) by (nonlinear_arith);
        }
        i = i + 1;
    }
    assert(cells@ =~= Room::block_cells(x0 as int, y0 as int, columns as int, rows as int));
    cells
}

} // verus!
