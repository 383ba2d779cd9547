//! Integer coordinates and sizes, the addressing units of the lattice.

use vstd::prelude::*;

verus! {

/// A point of the integer lattice.
#[derive(Debug, Copy, Clone, PartialEq, Eq, Hash, Structural)]
pub struct IntVector2 {
    pub x: i32,
    pub y: i32,
}

impl IntVector2 {
    pub fn new(x: i32, y: i32) -> (v: Self)
        ensures
            v.x == x,
            v.y == y,
    {
        IntVector2 { x, y }
    }
}

impl Default for IntVector2 {
    fn default() -> (v: Self)
        ensures
            v == (IntVector2 { x: 0, y: 0 }),
    {
        IntVector2 { x: 0, y: 0 }
    }
}

/// A width and a height, both unsigned.
#[derive(Debug, Copy, Clone, PartialEq, Eq, Structural)]
pub struct Dimension2 {
    width: u32,
    height: u32,
}

impl Dimension2 {
    pub closed spec fn spec_width(&self) -> u32 {
        self.width
    }

    pub closed spec fn spec_height(&self) -> u32 {
        self.height
    }

    /// The size with the given width and height.
    pub closed spec fn spec_new(width: u32, height: u32) -> Self {
        Dimension2 { width, height }
    }

    /// What `spec_new` makes has the given width and height.
    pub proof fn lemma_spec_new(width: u32, height: u32)
        ensures
            Self::spec_new(width, height).spec_width() == width,
            Self::spec_new(width, height).spec_height() == height,
    {
    }

    #[verifier::when_used_as_spec(spec_new)]
    pub fn new(width: u32, height: u32) -> (d: Self)
        ensures
            d == Self::spec_new(width, height),
            d.spec_width() == width,
            d.spec_height() == height,
    {
        Dimension2 { width, height }
    }

    #[verifier::when_used_as_spec(spec_width)]
    pub fn width(&self) -> (w: u32)
        ensures
            w == self.spec_width(),
    {
        self.width
    }

    #[verifier::when_used_as_spec(spec_height)]
    pub fn height(&self) -> (h: u32)
        ensures
            h == self.spec_height(),
    {
        self.height
    }

    pub fn mut_width(&mut self) -> (w: &mut u32)
        ensures
            *w == old(self).spec_width(),
            final(self).spec_width() == *final(w),
            final(self).spec_height() == old(self).spec_height(),
    {
        &mut self.width
    }

    pub fn mut_height(&mut self) -> (h: &mut u32)
        ensures
            *h == old(self).spec_height(),
            final(self).spec_height() == *final(h),
            final(self).spec_width() == old(self).spec_width(),
    {
        &mut self.height
    }
}

impl Default for Dimension2 {
    fn default() -> (d: Self)
        ensures
            d.spec_width() == 0,
            d.spec_height() == 0,
    {
        Dimension2 { width: 0, height: 0 }
    }
}

} // verus!
