//! What the map asks of a tile: visibility flags, walkability, line-of-sight
//! occlusion and a list of the items lying on it.

use vstd::prelude::*;
use vstd::std_specs::cmp::PartialEqSpecImpl;

verus! {

/// How much a tile lets sight through, a scalar between 0 (blocked) and 1
/// (clear), held as the bit pattern of its single-precision value.
#[derive(Debug, Clone, Copy)]
pub struct VisibilityOcclusion {
    bits: u32,
}

/// Bit pattern of the single-precision value `1.0`.
pub const ONE_BITS: u32 = 0x3f80_0000;

/// Bit pattern of the single-precision value `-0.0`.
pub const NEGATIVE_ZERO_BITS: u32 = 0x8000_0000;

/// The bit patterns of the values from 0 to 1: those of the non-negative
/// values are ordered as the values are, and `-0.0` equals zero.
pub open spec fn is_unit_interval_bits(bits: u32) -> bool {
    bits <= ONE_BITS || bits == NEGATIVE_ZERO_BITS
}

/// Both bit patterns of zero stand for the same value.
pub open spec fn is_zero_bits(bits: u32) -> bool {
    bits == 0 || bits == NEGATIVE_ZERO_BITS
}

impl VisibilityOcclusion {
    pub closed spec fn spec_bits(&self) -> u32 {
        self.bits
    }

    /// Equality of the values that two bit patterns of the unit interval stand for.
    pub open spec fn same_value(&self, other: &Self) -> bool {
        self.spec_bits() == other.spec_bits() || (is_zero_bits(self.spec_bits()) && is_zero_bits(
            other.spec_bits(),
        ))
    }

    /// Sight stops at a tile with this occlusion.
    pub open spec fn is_blocked(&self) -> bool {
        is_zero_bits(self.spec_bits())
    }

    /// The occlusion with the given bit pattern, if it stands for a value from 0 to 1.
    pub fn new(bits: u32) -> (r: Option<Self>)
        ensures
            is_unit_interval_bits(bits) <==> r.is_some(),
            r.is_some() ==> r.unwrap().spec_bits() == bits,
    {
        if bits <= ONE_BITS || bits == NEGATIVE_ZERO_BITS {
            Some(VisibilityOcclusion { bits })
        } else {
            None
        }
    }

    /// The occlusion with the given bit pattern, for a caller that knows it to
    /// stand for a value from 0 to 1.
    pub fn new_unchecked(bits: u32) -> (r: Self)
        requires
            is_unit_interval_bits(bits),
        ensures
            r.spec_bits() == bits,
    {
        VisibilityOcclusion { bits }
    }

    pub closed spec fn spec_blocked() -> Self {
        VisibilityOcclusion { bits: 0 }
    }

    pub closed spec fn spec_visible() -> Self {
        VisibilityOcclusion { bits: ONE_BITS }
    }

    /// The two canonical occlusions are what their names say: the blocked
    /// one is the value 0 and stops sight, the clear one is the value 1 and
    /// lets sight through.
    pub proof fn lemma_canonical_occlusions()
        ensures
            Self::spec_blocked().spec_bits() == 0,
            Self::spec_blocked().is_blocked(),
            Self::spec_visible().spec_bits() == ONE_BITS,
            !Self::spec_visible().is_blocked(),
            !Self::spec_visible().same_value(&Self::spec_blocked()),
    {
    }

    /// The occlusion of a tile that stops sight: the value 0.
    #[verifier::when_used_as_spec(spec_blocked)]
    pub fn blocked() -> (r: Self)
        ensures
            r == Self::spec_blocked(),
            r.spec_bits() == 0,
            r.is_blocked(),
    {
        VisibilityOcclusion { bits: 0 }
    }

    /// The occlusion of a tile that lets sight through: the value 1.
    #[verifier::when_used_as_spec(spec_visible)]
    pub fn visible() -> (r: Self)
        ensures
            r == Self::spec_visible(),
            r.spec_bits() == ONE_BITS,
            !r.is_blocked(),
    {
        VisibilityOcclusion { bits: ONE_BITS }
    }

    #[verifier::when_used_as_spec(spec_bits)]
    pub fn to_bits(&self) -> (r: u32)
        ensures
            r == self.spec_bits(),
    {
        self.bits
    }
}

impl PartialEq for VisibilityOcclusion {
    fn eq(&self, other: &Self) -> (r: bool) {
        self.bits == other.bits || ((self.bits == 0 || self.bits == NEGATIVE_ZERO_BITS) && (
        other.bits == 0 || other.bits == NEGATIVE_ZERO_BITS))
    }
}

impl PartialEqSpecImpl for VisibilityOcclusion {
    open spec fn obeys_eq_spec() -> bool {
        true
    }

    open spec fn eq_spec(&self, other: &Self) -> bool {
        self.same_value(other)
    }
}

/// A tile that can be shown or hidden.
pub trait Visible: View {
    /// What `is_visible` answers for a tile with the given view.
    spec fn view_is_visible(v: Self::V) -> bool;

    /// The view of a tile after `set_visible`.
    spec fn view_set_visible(v: Self::V, visible: bool) -> Self::V;

    fn is_visible(&self) -> (b: bool)
        ensures
            b == Self::view_is_visible(self@),
    ;

    fn set_visible(&mut self, visible: bool)
        ensures
            final(self)@ == Self::view_set_visible(old(self)@, visible),
    ;
}

/// A tile that remembers having been seen.
pub trait Visited: View {
    /// What `is_visited` answers for a tile with the given view.
    spec fn view_is_visited(v: Self::V) -> bool;

    /// The view of a tile after `set_visited`.
    spec fn view_set_visited(v: Self::V, visited: bool) -> Self::V;

    fn is_visited(&self) -> (b: bool)
        ensures
            b == Self::view_is_visited(self@),
    ;

    fn set_visited(&mut self, visited: bool)
        ensures
            final(self)@ == Self::view_set_visited(old(self)@, visited),
    ;
}

/// A tile that can or cannot be stepped on.
pub trait Walkable: View {
    /// What `is_walkable` answers for a tile with the given view.
    spec fn view_is_walkable(v: Self::V) -> bool;

    fn is_walkable(&self) -> (b: bool)
        ensures
            b == Self::view_is_walkable(self@),
    ;
}

/// A tile that holds references to the items lying on it, each reference
/// being the 64-bit identifier of an entity.
pub trait ItemContainer: View {
    /// What `items` answers for a tile with the given view.
    spec fn view_items(v: Self::V) -> Option<Seq<u64>>;

    /// The view of a tile after `add_item`.
    spec fn view_add_item(v: Self::V, item: u64) -> Self::V;

    /// The view of a tile after `remove_item`.
    spec fn view_remove_item(v: Self::V, item: u64) -> Self::V;

    fn items(&self) -> (r: Option<Vec<u64>>)
        ensures
            match r {
                Some(items) => Self::view_items(self@) == Some(items@),
                None => Self::view_items(self@).is_none(),
            },
    ;

    fn add_item(&mut self, item: u64)
        ensures
            final(self)@ == Self::view_add_item(old(self)@, item),
    ;

    fn remove_item(&mut self, item: u64)
        ensures
            final(self)@ == Self::view_remove_item(old(self)@, item),
    ;
}

/// A tile that may stop a line of sight.
pub trait FovOccluder: View {
    /// What `block_visibility` answers for a tile with the given view.
    spec fn view_occlusion(v: Self::V) -> VisibilityOcclusion;

    fn block_visibility(&self) -> (r: VisibilityOcclusion)
        ensures
            r == Self::view_occlusion(self@),
    ;
}

/// The payload of a map cell. Its flags and items change independently of what
/// it is: marking a tile visited or visible, or moving items on or off it,
/// leaves its occlusion as it was; each of the two flags reads as it was last
/// set, whatever the other was set to; and a clone has the view of the tile
/// it was made from.
pub trait Tile: Clone + Visible + Visited + FovOccluder + Walkable + ItemContainer {
    proof fn lemma_clone_keeps_view(a: Self, b: Self)
        requires
            cloned(a, b),
        ensures
            a@ == b@,
    ;

    proof fn lemma_flags_follow_setters(v: Self::V, flag: bool)
        ensures
            Self::view_is_visited(Self::view_set_visited(v, flag)) == flag,
            Self::view_is_visited(Self::view_set_visible(v, flag)) == Self::view_is_visited(v),
            Self::view_is_visible(Self::view_set_visible(v, flag)) == flag,
            Self::view_is_visible(Self::view_set_visited(v, flag)) == Self::view_is_visible(v),
    ;

    proof fn lemma_occlusion_is_stable(v: Self::V, flag: bool, item: u64)
        ensures
            Self::view_occlusion(Self::view_set_visible(v, flag)) == Self::view_occlusion(v),
            Self::view_occlusion(Self::view_set_visited(v, flag)) == Self::view_occlusion(v),
            Self::view_occlusion(Self::view_add_item(v, item)) == Self::view_occlusion(v),
            Self::view_occlusion(Self::view_remove_item(v, item)) == Self::view_occlusion(v),
    ;
}

} // verus!
