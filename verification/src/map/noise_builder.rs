//! Sparse painting: a step that paints the cells of a rectangle for which a
//! template has been chosen, and leaves the others as they are.

use std::marker::PhantomData;
use vstd::prelude::*;
use crate::extent::IntExtent2;
use crate::map::builder::{scanned, MapBuilder, MapBuilderAlgorithm};
use crate::tile::Tile;
use crate::vector::IntVector2;

verus! {

/// Paints a rectangle from a list of choices, one per cell, column by
/// column: `Some(name)` paints the cell with the template of that name,
/// `None` leaves it untouched. The choices are what a threshold function made
/// of the noise field at each cell.
#[derive(Debug)]
pub struct BuilderAlgoWithNoise<T> where T: Tile {
    choices: Vec<Option<String>>,
    extent: IntExtent2,
    _marker: PhantomData<T>,
}

/// Place of the cell `p` in a column-by-column scan of `extent`.
pub open spec fn choice_index(extent: IntExtent2, p: IntVector2) -> int {
    (p.x - extent.spec_left()) * extent.spec_height() + (p.y - extent.spec_top())
}

/// The name chosen for the `k`-th cell, if one was chosen.
pub open spec fn chosen_name(choices: Seq<Option<String>>, k: int) -> Option<Seq<char>> {
    match choices[k] {
        Some(name) => Some(name@),
        None => None,
    }
}

/// The step paints the cell `p`.
pub open spec fn paints(extent: IntExtent2, choices: Seq<Option<String>>, p: IntVector2) -> bool {
    extent.spec_contains(p.x as int, p.y as int) && chosen_name(
        choices,
        choice_index(extent, p),
    ).is_some()
}

/// The cells of `m` after the chosen cells among `cells` have been painted.
pub open spec fn painted<V>(
    m: Map<IntVector2, V>,
    extent: IntExtent2,
    choices: Seq<Option<String>>,
    templates: Map<Seq<char>, V>,
    cells: Set<IntVector2>,
) -> Map<IntVector2, V> {
    Map::new(
        |p: IntVector2| m.contains_key(p) || (cells.contains(p) && paints(extent, choices, p)),
        |p: IntVector2|
            if cells.contains(p) && paints(extent, choices, p) {
                templates[chosen_name(choices, choice_index(extent, p)).unwrap()]
            } else {
                m[p]
            },
    )
}

impl<T: Tile> BuilderAlgoWithNoise<T> {
    pub closed spec fn spec_extent(&self) -> IntExtent2 {
        self.extent
    }

    pub closed spec fn spec_choices(&self) -> Seq<Option<String>> {
        self.choices@
    }

    pub fn new(choices: Vec<Option<String>>, extent: IntExtent2) -> (b: Self)
        ensures
            b.spec_extent() == extent,
            b.spec_choices() == choices@,
    {
        Self { choices, extent, _marker: PhantomData }
    }
}

/// Painting is a function of the map, the templates and the choices: two
/// runs of a painting step from equal maps with equal templates leave equal maps.
pub proof fn lemma_painting_is_deterministic<T: Tile>(
    step: BuilderAlgoWithNoise<T>,
    first: MapBuilder<T>,
    first_built: MapBuilder<T>,
    second: MapBuilder<T>,
    second_built: MapBuilder<T>,
)
    requires
        first.map@ == second.map@,
        first.tiles@ == second.tiles@,
        step.builds(first, first_built),
        step.builds(second, second_built),
    ensures
        first_built.map@ == second_built.map@,
        first_built.tiles@ == second_built.tiles@,
{
}

impl<T: Tile> MapBuilderAlgorithm<T> for BuilderAlgoWithNoise<T> {
    open spec fn applies(&self, builder: MapBuilder<T>) -> bool {
        &&& self.spec_extent().fits()
        &&& self.spec_choices().len() == self.spec_extent().spec_width()
            * self.spec_extent().spec_height()
        &&& forall|k: int|
            0 <= k < self.spec_choices().len() && (#[trigger] chosen_name(
                self.spec_choices(),
                k,
            )).is_some() ==> builder.tiles@.contains_key(
                chosen_name(self.spec_choices(), k).unwrap(),
            )
    }

    open spec fn builds(&self, before: MapBuilder<T>, after: MapBuilder<T>) -> bool {
        &&& after.map@ == painted(
            before.map@,
            self.spec_extent(),
            self.spec_choices(),
            before.tiles@,
            Set::<IntVector2>::full(),
        )
        &&& after.map.size == before.map.size
        &&& after.tiles == before.tiles
        &&& after.extent == before.extent
        &&& after.rooms == before.rooms
    }

    fn build<'a>(&self, map_builder: &'a mut MapBuilder<T>) -> (r: &'a mut MapBuilder<T>) {
        let ghost before = map_builder.map@;
        let ghost templates = map_builder.tiles@;
        let ghost w = self.extent.spec_width() as int;
        let ghost h = self.extent.spec_height() as int;
        let left: i64 = self.extent.left() as i64;
        let right: i64 = self.extent.right() as i64;
        let top: i64 = self.extent.top() as i64;
        let bottom: i64 = self.extent.bottom() as i64;
        let mut x: i64 = left;
        let mut k: usize = 0;
        assert(map_builder.map@ =~= painted(
            before,
            self.extent,
            self.choices@,
            templates,
            Set::new(|p: IntVector2| scanned(self.extent, left as int, top as int, p)),
        ));
        assert(0 == (x - left) * h) by (nonlinear_arith)
            requires
                x == left,
        ;
        while x < right
            invariant
                self.applies(*old(map_builder)),
                w == self.extent.spec_width(),
                h == self.extent.spec_height(),
                left == self.extent.spec_left(),
                right == self.extent.right_bound(),
                top == self.extent.spec_top(),
                bottom == self.extent.bottom_bound(),
                left <= x <= right,
                k == (x - left) * h,
                map_builder.tiles == old(map_builder).tiles,
                map_builder.extent == old(map_builder).extent,
                map_builder.rooms == old(map_builder).rooms,
                map_builder.map.size == old(map_builder).map.size,
                templates == map_builder.tiles@,
                map_builder.map@ == painted(
                    before,
                    self.extent,
                    self.choices@,
                    templates,
                    Set::new(|p: IntVector2| scanned(self.extent, x as int, top as int, p)),
                ),
            decreases right - x,
        {
            let mut y: i64 = top;
            while y < bottom
                invariant
                    self.applies(*old(map_builder)),
                    w == self.extent.spec_width(),
                    h == self.extent.spec_height(),
                    left == self.extent.spec_left(),
                    right == self.extent.right_bound(),
                    top == self.extent.spec_top(),
                    bottom == self.extent.bottom_bound(),
                    left <= x < right,
                    top <= y <= bottom,
                    k == (x - left) * h + (y - top),
                    map_builder.tiles == old(map_builder).tiles,
                    map_builder.extent == old(map_builder).extent,
                    map_builder.rooms == old(map_builder).rooms,
                    map_builder.map.size == old(map_builder).map.size,
                    templates == map_builder.tiles@,
                    map_builder.map@ == painted(
                        before,
                        self.extent,
                        self.choices@,
                        templates,
                        Set::new(|p: IntVector2| scanned(self.extent, x as int, y as int, p)),
                    ),
                decreases bottom - y,
            {
                proof {
                    IntExtent2::lemma_row_major_join(x - left, y - top, h, w);
                    assert(w * h == h * w) by (nonlinear_arith);
                    assert(k < self.choices.len());
                }
                let ghost here = IntVector2 { x: x as i32, y: y as i32 };
                assert(choice_index(self.extent, here) == k);
                match &self.choices[k] {
                    Some(name) => {
                        assert(chosen_name(self.choices@, k as int) == Some(name@));
                        match map_builder.tiles.get(name.as_str()) {
                            Some(template) => {
                                let tile = template.clone();
                                proof {
                                    T::lemma_clone_keeps_view(*template, tile);
                                }
                                map_builder.map.set(x as i32, y as i32, tile);
                            },
                            None => {
                                assert(false);
                            },
                        }
                    },
                    None => {},
                }
                assert(map_builder.map@ =~= painted(
                    before,
                    self.extent,
                    self.choices@,
                    templates,
                    Set::new(|p: IntVector2| scanned(self.extent, x as int, y + 1, p)),
                ));
                y = y + 1;
                k = k + 1;
            }
            assert(y - top == h);
            assert((x + 1 - left) * h == (x - left) * h + h) by (nonlinear_arith);
            assert(map_builder.map@ =~= painted(
                before,
                self.extent,
                self.choices@,
                templates,
                Set::new(|p: IntVector2| scanned(self.extent, x + 1, top as int, p)),
            ));
            x = x + 1;
        }
        assert(map_builder.map@ =~= painted(
            before,
            self.extent,
            self.choices@,
            templates,
            Set::<IntVector2>::full(),
        ));
        map_builder
    }
}

} // verus!
