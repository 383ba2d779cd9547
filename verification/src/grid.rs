//! A sparse, unbounded lattice: only occupied cells take storage.

use std::collections::HashMap;
use vstd::prelude::*;
use vstd::set_lib::lemma_map_size;
use crate::line::{bresenham_line, line_cells};
use crate::morton::{
    decoded,
    encoded,
    lemma_decode_encode,
    lemma_encode_decode,
    lemma_encode_injective,
    PositionEncoder,
};
use crate::vector::IntVector2;

verus! {

broadcast use vstd::std_specs::hash::group_hash_axioms;

/// A plane whose coordinates are integers and whose cells hold values of `T`.
pub trait Plane<T> {
    /// The occupied cells and what they hold.
    spec fn cells(&self) -> Map<IntVector2, T>;

    /// The value at `position`, or `None` where the cell is empty.
    fn at(&self, position: IntVector2) -> (r: Option<&T>)
        ensures
            match r {
                Some(value) => self.cells().contains_key(position) && *value
                    == self.cells()[position],
                None => !self.cells().contains_key(position),
            },
    ;

    /// Access to the value at `position` for changing it in place.
    fn at_mut(&mut self, position: IntVector2) -> (r: Option<&mut T>)
        ensures
            match r {
                Some(value) => {
                    &&& old(self).cells().contains_key(position)
                    &&& *value == old(self).cells()[position]
                    &&& final(self).cells() == old(self).cells().insert(position, *final(value))
                },
                None => {
                    &&& !old(self).cells().contains_key(position)
                    &&& final(self).cells() == old(self).cells()
                },
            },
    ;

    /// Stores `value` at `pos`, replacing what was there.
    fn put(&mut self, pos: IntVector2, value: T)
        ensures
            final(self).cells() == old(self).cells().insert(pos, value),
    ;

    /// The straight line of cells from `start` to `end`, both included.
    fn line(&self, start: IntVector2, end: IntVector2) -> (r: Vec<IntVector2>)
        ensures
            r@ == line_cells(start, end),
    ;

    /// The occupied cells among the eight around `pos`.
    fn neighbors(&self, pos: IntVector2) -> (r: Vec<IntVector2>)
        ensures
            r@ == occupied_neighbors(self.cells().dom(), pos),
    ;
}

/// Column offset of the `k`-th cell of the 3 by 3 block around a cell,
/// counted column by column.
pub open spec fn block_dx(k: int) -> int {
    k / 3 - 1
}

/// Row offset of the `k`-th cell of the 3 by 3 block around a cell.
pub open spec fn block_dy(k: int) -> int {
    k % 3 - 1
}

/// The `k`-th cell of the block around `pos` is a neighbour that exists and
/// is occupied: it is not `pos` itself, its coordinates are representable,
/// and the cell is among `occupied`.
pub open spec fn is_occupied_neighbor(occupied: Set<IntVector2>, pos: IntVector2, k: int) -> bool {
    &&& k != 4
    &&& i32::MIN <= pos.x + block_dx(k) <= i32::MAX
    &&& i32::MIN <= pos.y + block_dy(k) <= i32::MAX
    &&& occupied.contains(block_cell(pos, k))
}

/// The `k`-th cell of the block around `pos`.
pub open spec fn block_cell(pos: IntVector2, k: int) -> IntVector2 {
    IntVector2 { x: (pos.x + block_dx(k)) as i32, y: (pos.y + block_dy(k)) as i32 }
}

/// The occupied neighbours among the first `n` cells of the block around `pos`.
pub open spec fn occupied_neighbors_among(occupied: Set<IntVector2>, pos: IntVector2, n: nat) -> Seq<
    IntVector2,
>
    decreases n,
{
    if n == 0 {
        Seq::empty()
    } else {
        let before = occupied_neighbors_among(occupied, pos, (n - 1) as nat);
        if is_occupied_neighbor(occupied, pos, n - 1) {
            before.push(block_cell(pos, n - 1))
        } else {
            before
        }
    }
}

/// The occupied cells among the eight around `pos`, column by column from
/// the lower coordinates to the higher.
pub open spec fn occupied_neighbors(occupied: Set<IntVector2>, pos: IntVector2) -> Seq<IntVector2> {
    occupied_neighbors_among(occupied, pos, 9)
}

/// A cell is reported as a neighbour exactly if it is occupied, differs from
/// `pos` and lies within one step of it in both directions.
pub proof fn lemma_neighbors_are_adjacent(occupied: Set<IntVector2>, pos: IntVector2, p: IntVector2)
    ensures
        occupied_neighbors(occupied, pos).contains(p) <==> (occupied.contains(p) && p != pos && -1
            <= p.x - pos.x <= 1 && -1 <= p.y - pos.y <= 1),
{
    reveal_with_fuel(occupied_neighbors_among, 10);
    let s = occupied_neighbors(occupied, pos);
    assert forall|n: nat| n <= 9 implies (#[trigger] occupied_neighbors_among(
        occupied,
        pos,
        n,
    ).contains(p) <==> exists|k: int| 0 <= k < n && is_occupied_neighbor(occupied, pos, k) && p
        == block_cell(pos, k)) by {
        lemma_neighbors_among(occupied, pos, n, p);
    }
    assert(occupied_neighbors_among(occupied, pos, 9) == s);
    if occupied.contains(p) && p != pos && -1 <= p.x - pos.x <= 1 && -1 <= p.y - pos.y <= 1 {
        let k = (p.x - pos.x + 1) * 3 + (p.y - pos.y + 1);
        assert(is_occupied_neighbor(occupied, pos, k) && p == block_cell(pos, k));
    }
}

proof fn lemma_neighbors_among(occupied: Set<IntVector2>, pos: IntVector2, n: nat, p: IntVector2)
    ensures
        occupied_neighbors_among(occupied, pos, n).contains(p) <==> exists|k: int|
            0 <= k < n && is_occupied_neighbor(occupied, pos, k) && p == block_cell(pos, k),
    decreases n,
{
    if n > 0 {
        lemma_neighbors_among(occupied, pos, (n - 1) as nat, p);
        let before = occupied_neighbors_among(occupied, pos, (n - 1) as nat);
        if is_occupied_neighbor(occupied, pos, n - 1) {
            let c = block_cell(pos, n - 1);
            let after = before.push(c);
            assert(after[after.len() - 1] == c);
            assert(forall|i: int| 0 <= i < before.len() ==> after[i] == before[i]);
            if before.contains(p) {
                let i = choose|i: int| 0 <= i < before.len() && before[i] == p;
                assert(after[i] == p);
            }
        }
    }
}

/// A plane that holds nothing has no cell, and storing one value in it fills
/// the cell of that value and no other.
pub proof fn lemma_sparse_absence<T, P: Plane<T>>(fresh: P, filled: P, c: IntVector2, value: T)
    requires
        fresh.cells() == Map::<IntVector2, T>::empty(),
        filled.cells() == fresh.cells().insert(c, value),
    ensures
        forall|p: IntVector2| !fresh.cells().contains_key(p),
        filled.cells().contains_key(c),
        filled.cells()[c] == value,
        forall|p: IntVector2| p != c ==> !filled.cells().contains_key(p),
{
}

/// A sparse lattice of cells keyed by the Morton code of their coordinates.
#[derive(Debug)]
pub struct LatticeGrid2D<T: Clone> {
    data: HashMap<u64, T>,
}

/// Looks a key up for writing, by `HashMap::get_mut`. Trusted: the reference
/// is to the stored value of `key`, what is written through it becomes that
/// value, no other entry changes, and an absent key gives `None`.
#[verifier::external_body]
fn value_mut<T>(data: &mut HashMap<u64, T>, key: u64) -> (r: Option<&mut T>)
    ensures
        match r {
            Some(value) => {
                &&& old(data)@.contains_key(key)
                &&& *value == old(data)@[key]
                &&& final(data)@ == old(data)@.insert(key, *final(value))
            },
            None => {
                &&& !old(data)@.contains_key(key)
                &&& final(data)@ == old(data)@
            },
        },
{
    data.get_mut(&key)
}

/// The cells that a table of keyed values stands for.
pub open spec fn content_of<T>(data: Map<u64, T>) -> Map<IntVector2, T> {
    Map::new(|p: IntVector2| data.contains_key(encoded(p)), |p: IntVector2| data[encoded(p)])
}

/// Storing a value under the key of `pos` stores it at `pos` and nowhere else.
proof fn lemma_content_insert<T>(data: Map<u64, T>, pos: IntVector2)
    ensures
        forall|v: T| #[trigger]
            content_of(data.insert(encoded(pos), v)) == content_of(data).insert(pos, v),
{
    assert forall|v: T| #[trigger]
        content_of(data.insert(encoded(pos), v)) == content_of(data).insert(pos, v) by {
        let after = content_of(data.insert(encoded(pos), v));
        let expected = content_of(data).insert(pos, v);
        assert forall|p: IntVector2| after.contains_key(p) == expected.contains_key(p) by {
            if encoded(p) == encoded(pos) {
                lemma_encode_injective(p, pos);
            }
        }
        assert forall|p: IntVector2| after.contains_key(p) implies after[p] == expected[p] by {
            if encoded(p) == encoded(pos) {
                lemma_encode_injective(p, pos);
            }
        }
        assert(after =~= expected);
    }
}

impl<T: Clone> LatticeGrid2D<T> {
    /// The content of the lattice, by coordinate.
    pub closed spec fn content(&self) -> Map<IntVector2, T> {
        content_of(self.data@)
    }

    /// An empty lattice.
    pub fn new() -> (g: Self)
        ensures
            g.content() == Map::<IntVector2, T>::empty(),
    {
        let g = LatticeGrid2D { data: HashMap::new() };
        assert(g.content() =~= Map::<IntVector2, T>::empty());
        g
    }

    /// The occupied cells are finitely many: as many as there are stored keys.
    proof fn lemma_content_size(&self)
        ensures
            self.content().dom().finite(),
            self.content().dom().len() == self.data@.dom().len(),
    {
        let keys = self.data@.dom();
        let f = |k: u64| decoded(k);
        assert forall|a: u64, b: u64| keys.contains(a) && keys.contains(b) && f(a) == f(
            b,
        ) implies a == b by {
            lemma_encode_decode(a);
            lemma_encode_decode(b);
        }
        assert(keys.map(f) =~= self.content().dom()) by {
            assert forall|p: IntVector2| keys.map(f).contains(p) <==> self.content().dom().contains(
                p,
            ) by {
                if keys.map(f).contains(p) {
                    let k = choose|k: u64| keys.contains(k) && f(k) == p;
                    lemma_encode_decode(k);
                }
                if self.content().dom().contains(p) {
                    lemma_decode_encode(p);
                    assert(keys.contains(encoded(p)) && f(encoded(p)) == p);
                }
            }
        }
        lemma_map_size(keys, self.content().dom(), f);
    }

    /// Number of occupied cells.
    pub fn len(&self) -> (n: usize)
        ensures
            self.content().dom().finite(),
            n == self.content().dom().len(),
    {
        proof {
            self.lemma_content_size();
        }
        self.data.len()
    }

    /// Whether no cell is occupied.
    pub fn is_empty(&self) -> (b: bool)
        ensures
            b == (self.content() == Map::<IntVector2, T>::empty()),
    {
        proof {
            self.lemma_content_size();
            if self.data@.dom().len() == 0 {
                assert(self.content() =~= Map::<IntVector2, T>::empty());
            }
        }
        self.data.len() == 0
    }
}

impl<T: Clone> Clone for LatticeGrid2D<T> {
    fn clone(&self) -> (g: Self)
        ensures
            g.content() == self.content(),
    {
        LatticeGrid2D { data: self.data.clone() }
    }
}

impl<T: Clone> Default for LatticeGrid2D<T> {
    fn default() -> (g: Self)
        ensures
            g.content() == Map::<IntVector2, T>::empty(),
    {
        Self::new()
    }
}

impl<T: Clone> Plane<T> for LatticeGrid2D<T> {
    open spec fn cells(&self) -> Map<IntVector2, T> {
        self.content()
    }

    fn at(&self, position: IntVector2) -> (r: Option<&T>) {
        let key = position.encode();
        self.data.get(&key)
    }

    fn at_mut(&mut self, position: IntVector2) -> (r: Option<&mut T>) {
        let key = position.encode();
        proof {
            lemma_content_insert(self.data@, position);
        }
        value_mut(&mut self.data, key)
    }

    fn put(&mut self, pos: IntVector2, value: T) {
        let key = pos.encode();
        proof {
            lemma_content_insert(self.data@, pos);
        }
        self.data.insert(key, value);
    }

    fn neighbors(&self, pos: IntVector2) -> (r: Vec<IntVector2>) {
        let mut found: Vec<IntVector2> = Vec::new();
        let mut k: i64 = 0;
        while k < 9
            invariant
                0 <= k <= 9,
                found@ == occupied_neighbors_among(self.content().dom(), pos, k as nat),
            decreases 9 - k,
        {
            let x: i64 = pos.x as i64 + (k / 3 - 1);
            let y: i64 = pos.y as i64 + (k % 3 - 1);
            let mut occupied = false;
            if k != 4 && i32::MIN as i64 <= x && x <= i32::MAX as i64 && i32::MIN as i64 <= y && y
                <= i32::MAX as i64 {
                let neighbor = IntVector2::new(x as i32, y as i32);
                if let Some(_) = self.at(neighbor) {
                    found.push(neighbor);
                    occupied = true;
                }
            }
            assert(occupied == is_occupied_neighbor(self.content().dom(), pos, k as int));
            k = k + 1;
        }
        found
    }

    fn line(&self, start: IntVector2, end: IntVector2) -> (r: Vec<IntVector2>) {
        bresenham_line(start, end)
    }
}

} // verus!
