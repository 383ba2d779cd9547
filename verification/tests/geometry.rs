use rs_nonamerl_core::extent::IntExtent2;
use rs_nonamerl_core::grid::{LatticeGrid2D, Plane};
use rs_nonamerl_core::line::bresenham_line;
use rs_nonamerl_core::morton::{PositionDecoder, PositionEncoder};
use rs_nonamerl_core::vector::{Dimension2, IntVector2};

#[test]
fn test_lattice_grid() {
    let mut grid = LatticeGrid2D::<i32>::new();
    grid.put(IntVector2::new(0, 0), 1);
    grid.put(IntVector2::new(1, 0), 2);
    grid.put(IntVector2::new(0, 1), 3);
    grid.put(IntVector2::new(1, 1), 4);

    assert_eq!(grid.at(IntVector2::new(0, 0)), Some(&1));
    assert_eq!(grid.at(IntVector2::new(1, 0)), Some(&2));
    assert_eq!(grid.at(IntVector2::new(0, 1)), Some(&3));
    assert_eq!(grid.at(IntVector2::new(1, 1)), Some(&4));

    assert_eq!(grid.at_mut(IntVector2::new(0, 0)), Some(&mut 1));
    assert_eq!(grid.at_mut(IntVector2::new(1, 0)), Some(&mut 2));
    assert_eq!(grid.at_mut(IntVector2::new(0, 1)), Some(&mut 3));
    assert_eq!(grid.at_mut(IntVector2::new(1, 1)), Some(&mut 4));

    assert_eq!(grid.at(IntVector2::new(2, 2)), None);
    assert_eq!(grid.at_mut(IntVector2::new(2, 2)), None);

    assert_eq!(grid.at(IntVector2::new(0, 0)), Some(&1));
    assert_eq!(grid.at(IntVector2::new(1, 0)), Some(&2));
    assert_eq!(grid.at(IntVector2::new(0, 1)), Some(&3));
    assert_eq!(grid.at(IntVector2::new(1, 1)), Some(&4));

    assert_eq!(grid.at_mut(IntVector2::new(0, 0)), Some(&mut 1));
    assert_eq!(grid.at_mut(IntVector2::new(1, 0)), Some(&mut 2));
    assert_eq!(grid.at_mut(IntVector2::new(0, 1)), Some(&mut 3));
    assert_eq!(grid.at_mut(IntVector2::new(1, 1)), Some(&mut 4));

    assert_eq!(grid.at(IntVector2::new(2, 2)), None);
}

#[test]
fn it_works() {
    let mut v = IntVector2::new(-1, 2);
    assert_eq!(v.x, -1);
    v.x = 3;
    assert_eq!(v.x, 3);
}

#[test]
fn test_extent2() {
    let e = IntExtent2::new(0, 0, 10, 10);
    assert_eq!(e.left(), 0);
    assert_eq!(e.right(), 10);
    assert_eq!(e.top(), 0);
    assert_eq!(e.bottom(), 10);
    assert_eq!(e.width(), 10);
    assert_eq!(e.height(), 10);
    assert!(e.contains(0, 0));
    assert!(e.contains(9, 9));
    assert!(!e.contains(10, 10));
}

fn points(cells: &[(i32, i32)]) -> Vec<IntVector2> {
    cells.iter().map(|c| IntVector2::new(c.0, c.1)).collect()
}

#[test]
fn dimension_accessors_read_and_write() {
    let mut d = Dimension2::new(3, 4);
    assert_eq!(d.width(), 3);
    assert_eq!(d.height(), 4);
    *d.mut_width() = 7;
    *d.mut_height() += 1;
    assert_eq!(d.width(), 7);
    assert_eq!(d.height(), 5);
    assert_eq!(Dimension2::default(), Dimension2::new(0, 0));
}

#[test]
fn translate_shifts_by_i32_max_and_wraps() {
    assert_eq!(<IntVector2 as PositionEncoder>::translate(0), 2147483647);
    assert_eq!(<IntVector2 as PositionEncoder>::translate(1), 2147483648);
    assert_eq!(<IntVector2 as PositionEncoder>::translate(-1), 2147483646);
    assert_eq!(<IntVector2 as PositionEncoder>::translate(i32::MAX), 4294967294);
    assert_eq!(<IntVector2 as PositionEncoder>::translate(i32::MIN + 1), 0);
    assert_eq!(<IntVector2 as PositionEncoder>::translate(i32::MIN), u32::MAX);
    assert_eq!(<u64 as PositionDecoder>::untranslate(2147483647), 0);
    assert_eq!(<u64 as PositionDecoder>::untranslate(0), i32::MIN + 1);
    assert_eq!(<u64 as PositionDecoder>::untranslate(u32::MAX), i32::MIN);
}

#[test]
fn encode_interleaves_x_above_y() {
    // translate(i32::MIN + 1) == 0 and translate(i32::MIN + 2) == 1
    let origin = IntVector2::new(i32::MIN + 1, i32::MIN + 1);
    assert_eq!(origin.encode(), 0);
    assert_eq!(IntVector2::new(i32::MIN + 1, i32::MIN + 2).encode(), 1);
    assert_eq!(IntVector2::new(i32::MIN + 2, i32::MIN + 1).encode(), 2);
    assert_eq!(IntVector2::new(i32::MIN + 2, i32::MIN + 2).encode(), 3);
    assert_eq!(IntVector2::new(i32::MIN + 1, i32::MIN + 3).encode(), 4);
    assert_eq!(IntVector2::new(i32::MIN + 3, i32::MIN + 1).encode(), 8);
    assert_eq!(IntVector2::new(i32::MIN, i32::MIN).encode(), u64::MAX);
    // x = 0 translates to 0x7fff_ffff: all odd bits but the top one
    assert_eq!(IntVector2::new(0, i32::MIN + 1).encode(), 0x2aaa_aaaa_aaaa_aaaa);
    assert_eq!(IntVector2::new(i32::MIN + 1, 0).encode(), 0x1555_5555_5555_5555);
}

#[test]
fn decode_splits_a_key() {
    assert_eq!(0u64.decode(), IntVector2::new(i32::MIN + 1, i32::MIN + 1));
    assert_eq!(1u64.decode(), IntVector2::new(i32::MIN + 1, i32::MIN + 2));
    assert_eq!(2u64.decode(), IntVector2::new(i32::MIN + 2, i32::MIN + 1));
    assert_eq!(u64::MAX.decode(), IntVector2::new(i32::MIN, i32::MIN));
    assert_eq!(0x2aaa_aaaa_aaaa_aaaau64.decode(), IntVector2::new(0, i32::MIN + 1));
}

#[test]
fn decode_of_encode_is_identity() {
    let samples = [
        (0, 0),
        (1, -1),
        (-1, 1),
        (123456, -654321),
        (i32::MAX, i32::MIN),
        (i32::MIN, i32::MAX),
        (i32::MAX, i32::MAX),
        (i32::MIN, i32::MIN),
        (-100, 99),
    ];
    for (x, y) in samples {
        let p = IntVector2::new(x, y);
        assert_eq!(p.encode().decode(), p);
    }
    for key in [0u64, 1, 2, 3, 0xdead_beef_0123_4567, u64::MAX] {
        assert_eq!(key.decode().encode(), key);
    }
}

#[test]
fn fresh_grid_is_empty_and_put_fills_one_cell() {
    let mut grid = LatticeGrid2D::<u8>::new();
    assert!(grid.is_empty());
    assert_eq!(grid.len(), 0);
    for x in -3..=3 {
        for y in -3..=3 {
            assert_eq!(grid.at(IntVector2::new(x, y)), None);
        }
    }
    grid.put(IntVector2::new(1, -2), 9);
    assert!(!grid.is_empty());
    assert_eq!(grid.len(), 1);
    for x in -3..=3 {
        for y in -3..=3 {
            let expected = if (x, y) == (1, -2) { Some(&9) } else { None };
            assert_eq!(grid.at(IntVector2::new(x, y)), expected);
        }
    }
    grid.put(IntVector2::new(1, -2), 10);
    assert_eq!(grid.len(), 1);
    assert_eq!(grid.at(IntVector2::new(1, -2)), Some(&10));
    let default_grid: LatticeGrid2D<u8> = Default::default();
    assert!(default_grid.is_empty());
}

#[test]
fn at_mut_changes_the_stored_value_only() {
    let mut grid = LatticeGrid2D::<i32>::new();
    grid.put(IntVector2::new(5, 5), 1);
    grid.put(IntVector2::new(5, 6), 2);
    if let Some(v) = grid.at_mut(IntVector2::new(5, 5)) {
        *v = 40;
    }
    assert_eq!(grid.at(IntVector2::new(5, 5)), Some(&40));
    assert_eq!(grid.at(IntVector2::new(5, 6)), Some(&2));
    assert_eq!(grid.len(), 2);
}

#[test]
fn neighbors_lists_occupied_cells_column_by_column() {
    let mut grid = LatticeGrid2D::<i32>::new();
    assert_eq!(grid.neighbors(IntVector2::new(0, 0)), vec![]);
    grid.put(IntVector2::new(0, 0), 0);
    grid.put(IntVector2::new(1, 1), 1);
    grid.put(IntVector2::new(-1, 0), 2);
    grid.put(IntVector2::new(0, -1), 3);
    grid.put(IntVector2::new(2, 0), 4);
    assert_eq!(
        grid.neighbors(IntVector2::new(0, 0)),
        points(&[(-1, 0), (0, -1), (1, 1)])
    );
    for x in -1..=1 {
        for y in -1..=1 {
            grid.put(IntVector2::new(x, y), 7);
        }
    }
    assert_eq!(
        grid.neighbors(IntVector2::new(0, 0)),
        points(&[(-1, -1), (-1, 0), (-1, 1), (0, -1), (0, 1), (1, -1), (1, 0), (1, 1)])
    );
}

#[test]
fn neighbors_at_the_edge_of_the_lattice() {
    let mut grid = LatticeGrid2D::<i32>::new();
    grid.put(IntVector2::new(i32::MAX - 1, i32::MAX), 1);
    grid.put(IntVector2::new(i32::MAX, i32::MAX - 1), 2);
    assert_eq!(
        grid.neighbors(IntVector2::new(i32::MAX, i32::MAX)),
        points(&[(i32::MAX - 1, i32::MAX), (i32::MAX, i32::MAX - 1)])
    );
    grid.put(IntVector2::new(i32::MIN, i32::MIN + 1), 3);
    assert_eq!(
        grid.neighbors(IntVector2::new(i32::MIN, i32::MIN)),
        points(&[(i32::MIN, i32::MIN + 1)])
    );
}

#[test]
fn line_from_a_cell_to_itself() {
    let start = IntVector2::new(3, -4);
    assert_eq!(bresenham_line(start, start), vec![start]);
}

#[test]
fn line_along_the_axes() {
    assert_eq!(
        bresenham_line(IntVector2::new(0, 0), IntVector2::new(5, 0)),
        points(&[(0, 0), (1, 0), (2, 0), (3, 0), (4, 0), (5, 0)])
    );
    assert_eq!(
        bresenham_line(IntVector2::new(0, 0), IntVector2::new(0, 5)),
        points(&[(0, 0), (0, 1), (0, 2), (0, 3), (0, 4), (0, 5)])
    );
    assert_eq!(
        bresenham_line(IntVector2::new(5, 0), IntVector2::new(0, 0)),
        points(&[(5, 0), (4, 0), (3, 0), (2, 0), (1, 0), (0, 0)])
    );
    assert_eq!(
        bresenham_line(IntVector2::new(0, 5), IntVector2::new(0, 0)),
        points(&[(0, 5), (0, 4), (0, 3), (0, 2), (0, 1), (0, 0)])
    );
}

#[test]
fn line_rounds_halves_towards_the_scan_origin() {
    // three steps right, one up: drift is round-half-down of i / 3
    assert_eq!(
        bresenham_line(IntVector2::new(0, 0), IntVector2::new(3, 1)),
        points(&[(0, 0), (1, 0), (2, 1), (3, 1)])
    );
    // two steps right, one up: the half at step 1 rounds down
    assert_eq!(
        bresenham_line(IntVector2::new(0, 0), IntVector2::new(2, 1)),
        points(&[(0, 0), (1, 0), (2, 1)])
    );
    // scanned from (0, 0) and reported backwards
    assert_eq!(
        bresenham_line(IntVector2::new(2, 1), IntVector2::new(0, 0)),
        points(&[(2, 1), (1, 0), (0, 0)])
    );
    // steep, downwards
    assert_eq!(
        bresenham_line(IntVector2::new(0, 0), IntVector2::new(-1, -4)),
        points(&[(0, 0), (0, -1), (-1, -2), (-1, -3), (-1, -4)])
    );
    assert_eq!(
        bresenham_line(IntVector2::new(0, 0), IntVector2::new(3, -3)),
        points(&[(0, 0), (1, -1), (2, -2), (3, -3)])
    );
}

#[test]
fn line_always_runs_from_start_to_end() {
    let ends = [
        (7, 2),
        (-7, 2),
        (7, -2),
        (-7, -2),
        (2, 7),
        (-2, 7),
        (2, -7),
        (-2, -7),
        (5, 5),
        (-5, -5),
        (0, -9),
        (-9, 0),
    ];
    let start = IntVector2::new(1, 1);
    for (x, y) in ends {
        let end = IntVector2::new(x, y);
        let cells = bresenham_line(start, end);
        let span = (x - 1).abs().max((y - 1).abs()) as usize;
        assert_eq!(cells.len(), span + 1);
        assert_eq!(cells[0], start);
        assert_eq!(cells[cells.len() - 1], end);
        for w in cells.windows(2) {
            assert!((w[0].x - w[1].x).abs() <= 1 && (w[0].y - w[1].y).abs() <= 1);
            assert!(w[0] != w[1]);
        }
    }
}

#[test]
fn line_copes_with_far_apart_rows() {
    let cells = bresenham_line(IntVector2::new(i32::MAX, 10), IntVector2::new(i32::MAX - 3, 9));
    assert_eq!(
        cells,
        points(&[(i32::MAX, 10), (i32::MAX - 1, 10), (i32::MAX - 2, 9), (i32::MAX - 3, 9)])
    );
}

#[test]
fn grid_line_is_the_bresenham_line() {
    let grid = LatticeGrid2D::<u8>::new();
    assert_eq!(
        grid.line(IntVector2::new(0, 0), IntVector2::new(2, 2)),
        points(&[(0, 0), (1, 1), (2, 2)])
    );
}

#[test]
fn extent_iteration_is_row_major_and_contained() {
    let e = IntExtent2::new(0, 0, 10, 10);
    let mut it = e.iter();
    let mut cells = Vec::new();
    while let Some(c) = it.next() {
        cells.push(c);
    }
    assert_eq!(cells.len(), 100);
    for (k, c) in cells.iter().enumerate() {
        assert!(e.contains(c.x, c.y));
        assert_eq!(*c, IntVector2::new((k % 10) as i32, (k / 10) as i32));
    }
    assert_eq!(it.next(), None);
    // restartable
    let mut again = e.iter();
    assert_eq!(again.next(), Some(IntVector2::new(0, 0)));
    assert_eq!(again.next(), Some(IntVector2::new(1, 0)));
}

#[test]
fn extent_iteration_of_degenerate_extents() {
    let mut flat = IntExtent2::new(4, 4, 3, 0).iter();
    assert_eq!(flat.next(), None);
    let mut thin = IntExtent2::new(4, 4, 0, 3).iter();
    assert_eq!(thin.next(), None);
    let mut offset = IntExtent2::new(-2, 7, 2, 2).iter();
    assert_eq!(offset.next(), Some(IntVector2::new(-2, 7)));
    assert_eq!(offset.next(), Some(IntVector2::new(-1, 7)));
    assert_eq!(offset.next(), Some(IntVector2::new(-2, 8)));
    assert_eq!(offset.next(), Some(IntVector2::new(-1, 8)));
    assert_eq!(offset.next(), None);
    assert_eq!(offset.next(), None);
}

#[test]
fn extent_contains_is_half_open() {
    let e = IntExtent2::new(-5, 3, 4, 2);
    assert_eq!(e.left(), -5);
    assert_eq!(e.right(), -1);
    assert_eq!(e.top(), 3);
    assert_eq!(e.bottom(), 5);
    assert!(e.contains(-5, 3));
    assert!(e.contains(-2, 4));
    assert!(!e.contains(-1, 4));
    assert!(!e.contains(-2, 5));
    assert!(!e.contains(-6, 3));
    assert!(!e.contains(-5, 2));
    let wide = IntExtent2::new(i32::MAX - 1, 0, 10, 1);
    assert!(wide.contains(i32::MAX, 0));
    let d = IntExtent2::default();
    assert!(!d.contains(0, 0));
}
