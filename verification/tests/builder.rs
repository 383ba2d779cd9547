use rs_nonamerl_core::extent::IntExtent2;
use rs_nonamerl_core::map::builder::{
    stamp_cells, FillWithFloorBuilderAlgo, MapBuilder, MapBuilderAlgorithm, RandomWalkBuilder,
    WalkDirection,
};
use rs_nonamerl_core::map::catalog::TileCatalog;
use rs_nonamerl_core::map::noise_builder::BuilderAlgoWithNoise;
use rs_nonamerl_core::map::room::Room;
use rs_nonamerl_core::map::room_builder::{place_rooms, stamp_rooms, RoomBuilder};
use rs_nonamerl_core::tile::Visited;
use rs_nonamerl_core::tiles::{TestTile, TileKind};
use rs_nonamerl_core::vector::{Dimension2, IntVector2};
use rs_nonamerl_core::world::generate_world_map;

fn points(cells: &[(i32, i32)]) -> Vec<IntVector2> {
    cells.iter().map(|c| IntVector2::new(c.0, c.1)).collect()
}

fn builder() -> MapBuilder<TestTile> {
    let mut b = MapBuilder::<TestTile>::new(IntExtent2::new(-100, -100, 200, 200));
    b.add_tile("floor".to_owned(), TestTile::new(TileKind::Floor));
    b.add_tile("wall".to_owned(), TestTile::new(TileKind::Wall("wall")));
    b.add_tile("wall2".to_owned(), TestTile::new(TileKind::Wall("wall2")));
    b
}

fn room(x: i32, y: i32, w: u32, h: u32) -> Room {
    Room::new(IntVector2::new(x, y), Dimension2::new(w, h))
}

#[test]
fn catalog_keeps_one_template_per_name() {
    let mut c = TileCatalog::<TestTile>::new();
    assert!(c.get("floor").is_none());
    c.insert("floor".to_owned(), TestTile::new(TileKind::Floor));
    c.insert("wall".to_owned(), TestTile::new(TileKind::Wall("wall")));
    assert_eq!(c.get("floor"), Some(&TestTile::new(TileKind::Floor)));
    assert_eq!(c.get("wall"), Some(&TestTile::new(TileKind::Wall("wall"))));
    assert!(c.get("wal").is_none());
    assert!(c.get("").is_none());
    c.insert("floor".to_owned(), TestTile::new(TileKind::Grass));
    assert_eq!(c.get("floor"), Some(&TestTile::new(TileKind::Grass)));
    assert_eq!(c.get("wall"), Some(&TestTile::new(TileKind::Wall("wall"))));
}

#[test]
fn new_builder_is_empty() {
    let mut b = MapBuilder::<TestTile>::new(IntExtent2::new(1, 2, 3, 4));
    assert!(b.map.is_empty());
    assert!(b.rooms.is_empty());
    assert_eq!(b.extent, IntExtent2::new(1, 2, 3, 4));
    assert!(b.get_tile("floor").is_none());
    b.add_tile("floor".to_owned(), TestTile::new(TileKind::Floor));
    assert_eq!(b.get_tile("floor"), Some(&TestTile::new(TileKind::Floor)));
    assert!(b.build().is_empty());
}

#[test]
fn fill_paints_the_rectangle_and_nothing_else() {
    let mut b = builder();
    b.map.set(100, 100, TestTile::new(TileKind::Grass));
    b.map.set(0, 0, TestTile::new(TileKind::Grass));
    b.build_step(&FillWithFloorBuilderAlgo::new(IntExtent2::new(-2, -1, 4, 3), "floor"));
    let map = b.build();
    assert_eq!(map.len(), 13);
    for x in -4..=4 {
        for y in -4..=4 {
            let inside = (-2..2).contains(&x) && (-1..2).contains(&y);
            let expected = if inside { Some(TestTile::new(TileKind::Floor)) } else { None };
            assert_eq!(map.get(x, y), expected, "({}, {})", x, y);
        }
    }
    assert_eq!(map.get(100, 100), Some(TestTile::new(TileKind::Grass)));
}

#[test]
fn fill_of_an_empty_rectangle_paints_nothing() {
    let mut b = builder();
    b.build_step(&FillWithFloorBuilderAlgo::new(IntExtent2::new(0, 0, 0, 5), "floor"))
        .build_step(&FillWithFloorBuilderAlgo::new(IntExtent2::new(0, 0, 5, 0), "wall"));
    assert!(b.build().is_empty());
}

#[test]
fn later_steps_overwrite_earlier_ones() {
    let mut b = builder();
    let map = b
        .build_step(&FillWithFloorBuilderAlgo::new(IntExtent2::new(0, 0, 3, 3), "floor"))
        .build_step(&FillWithFloorBuilderAlgo::new(IntExtent2::new(1, 1, 3, 3), "wall"))
        .build();
    assert_eq!(map.get(0, 0).unwrap().kind, TileKind::Floor);
    assert_eq!(map.get(1, 1).unwrap().kind, TileKind::Wall("wall"));
    assert_eq!(map.get(3, 3).unwrap().kind, TileKind::Wall("wall"));
    assert_eq!(map.get(2, 0).unwrap().kind, TileKind::Floor);
    assert_eq!(map.len(), 14);
}

#[test]
fn build_is_a_snapshot() {
    let mut b = builder();
    b.build_step(&FillWithFloorBuilderAlgo::new(IntExtent2::new(0, 0, 1, 1), "floor"));
    let first = b.build();
    b.map.set_visited(IntVector2::new(0, 0), true);
    b.build_step(&FillWithFloorBuilderAlgo::new(IntExtent2::new(5, 5, 1, 1), "floor"));
    assert_eq!(first.len(), 1);
    assert!(!first.get(0, 0).unwrap().is_visited());
    assert_eq!(b.build().len(), 2);
}

#[test]
fn painting_follows_the_choices_column_by_column() {
    let mut b = builder();
    b.build_step(&FillWithFloorBuilderAlgo::new(IntExtent2::new(0, 0, 2, 3), "floor"));
    // extent 3 columns by 2 rows at (1, 1): choices for (1,1), (1,2), (2,1), (2,2), (3,1), (3,2)
    let choices = vec![
        Some("wall".to_owned()),
        None,
        None,
        Some("wall2".to_owned()),
        Some("floor".to_owned()),
        None,
    ];
    b.build_step(&BuilderAlgoWithNoise::new(choices, IntExtent2::new(1, 1, 3, 2)));
    let map = b.build();
    assert_eq!(map.get(1, 1).unwrap().kind, TileKind::Wall("wall"));
    assert_eq!(map.get(1, 2).unwrap().kind, TileKind::Floor);
    assert_eq!(map.get(2, 1), None);
    assert_eq!(map.get(2, 2).unwrap().kind, TileKind::Wall("wall2"));
    assert_eq!(map.get(3, 1).unwrap().kind, TileKind::Floor);
    assert_eq!(map.get(3, 2), None);
    assert_eq!(map.get(0, 0).unwrap().kind, TileKind::Floor);
    assert_eq!(map.len(), 8);
}

#[test]
fn generation_is_deterministic() {
    let run = || {
        let mut b = builder();
        let choices: Vec<Option<String>> = (0..16)
            .map(|k| if k % 3 == 0 { Some("wall2".to_owned()) } else { None })
            .collect();
        b.build_step(&FillWithFloorBuilderAlgo::new(IntExtent2::new(-3, -3, 8, 8), "floor"))
            .build_step(&BuilderAlgoWithNoise::new(choices, IntExtent2::new(0, 0, 4, 4)))
            .build()
    };
    let first = run();
    let second = run();
    assert_eq!(first.len(), second.len());
    for x in -5..=6 {
        for y in -5..=6 {
            assert_eq!(first.get(x, y), second.get(x, y));
        }
    }
    assert_eq!(first.get(0, 0).unwrap().kind, TileKind::Wall("wall2"));
    assert_eq!(first.get(0, 1).unwrap().kind, TileKind::Floor);
    assert_eq!(first.get(0, 3).unwrap().kind, TileKind::Wall("wall2"));
}

#[test]
fn stamping_puts_the_template_on_each_cell() {
    let mut b = builder();
    let cells = points(&[(1, 1), (2, 2), (1, 1), (-7, 0)]);
    stamp_cells(&mut b, &cells, "wall");
    assert_eq!(b.map.len(), 3);
    assert_eq!(b.map.get(1, 1).unwrap().kind, TileKind::Wall("wall"));
    assert_eq!(b.map.get(-7, 0).unwrap().kind, TileKind::Wall("wall"));
    stamp_cells(&mut b, &Vec::new(), "floor");
    assert_eq!(b.map.len(), 3);
}

#[test]
fn walk_steps() {
    let p = IntVector2::new(5, 5);
    type Walk = RandomWalkBuilder<TestTile>;
    assert_eq!(Walk::step(p, WalkDirection::Up), IntVector2::new(4, 5));
    assert_eq!(Walk::step(p, WalkDirection::Left), IntVector2::new(4, 5));
    assert_eq!(Walk::step(p, WalkDirection::Right), IntVector2::new(6, 5));
    assert_eq!(Walk::step(p, WalkDirection::Down), IntVector2::new(5, 6));
}

#[test]
fn walk_advances_onto_new_cells_only() {
    type Walk = RandomWalkBuilder<TestTile>;
    let mut cells = Vec::new();
    let start = IntVector2::new(0, 0);
    assert_eq!(Walk::advance(&mut cells, start, WalkDirection::Right), Some(IntVector2::new(1, 0)));
    assert_eq!(
        Walk::advance(&mut cells, IntVector2::new(1, 0), WalkDirection::Down),
        Some(IntVector2::new(1, 1))
    );
    assert_eq!(Walk::advance(&mut cells, start, WalkDirection::Right), None);
    assert_eq!(Walk::advance(&mut cells, IntVector2::new(2, 0), WalkDirection::Left), None);
    assert_eq!(Walk::advance(&mut cells, IntVector2::new(2, 0), WalkDirection::Up), None);
    assert_eq!(cells, points(&[(1, 0), (1, 1)]));
    // the start itself is not among the cells reached until the walk steps back onto it
    assert_eq!(
        Walk::advance(&mut cells, IntVector2::new(1, 0), WalkDirection::Left),
        Some(IntVector2::new(0, 0))
    );
    assert_eq!(cells, points(&[(1, 0), (1, 1), (0, 0)]));
}

#[test]
fn random_walk_reaches_a_hundred_connected_cells() {
    let start = IntVector2::new(3, -4);
    let cells = RandomWalkBuilder::<TestTile>::new(start).walk();
    assert_eq!(cells.len(), 100);
    for (i, c) in cells.iter().enumerate() {
        assert!(!cells[..i].contains(c));
        assert!((c.x - start.x).abs() <= 100 && (c.y - start.y).abs() <= 100);
        assert!(c.y >= start.y);
        let from = |p: &IntVector2| {
            (c.x == p.x - 1 && c.y == p.y)
                || (c.x == p.x + 1 && c.y == p.y)
                || (c.x == p.x && c.y == p.y + 1)
        };
        assert!(from(&start) || cells[..i].iter().any(|p| from(p)));
    }
    assert!(cells.iter().any(|c| *c != cells[0]));
}

#[test]
fn random_walk_carves_floor() {
    let mut b = builder();
    b.map.set(500, 500, TestTile::new(TileKind::Grass));
    let walk = RandomWalkBuilder::<TestTile>::new(IntVector2::new(0, 0));
    walk.build(&mut b);
    let map = b.build();
    assert_eq!(map.len(), 101);
    let mut floors = 0;
    for x in -100..=100 {
        for y in -100..=100 {
            if let Some(t) = map.get(x, y) {
                assert_eq!(t.kind, TileKind::Floor);
                floors += 1;
            }
        }
    }
    assert_eq!(floors, 100);
}

#[test]
fn room_cells_are_listed_column_by_column() {
    let r = room(2, 3, 3, 2);
    assert_eq!(r.pos(), IntVector2::new(2, 3));
    assert_eq!(r.size(), Dimension2::new(3, 2));
    assert_eq!(r.cells(), points(&[(2, 3), (2, 4), (3, 3), (3, 4), (4, 3), (4, 4)]));
    assert_eq!(room(0, 0, 0, 4).cells(), vec![]);
    assert_eq!(room(0, 0, 4, 0).cells(), vec![]);
}

#[test]
fn room_border_lists_rows_then_columns() {
    let r = room(0, 0, 3, 2);
    assert_eq!(
        r.border_cells(),
        points(&[
            (0, 0),
            (0, 1),
            (1, 0),
            (1, 1),
            (2, 0),
            (2, 1),
            (0, 0),
            (2, 0),
            (0, 1),
            (2, 1)
        ])
    );
    assert_eq!(room(5, 5, 1, 1).border_cells(), points(&[(5, 5), (5, 5), (5, 5), (5, 5)]));
    assert_eq!(room(5, 5, 0, 0).border_cells(), vec![]);
}

#[test]
fn room_interior_is_inside_the_walls() {
    assert_eq!(
        room(10, 20, 4, 5).interior_cells(),
        points(&[(11, 21), (11, 22), (11, 23), (12, 21), (12, 22), (12, 23)])
    );
    assert_eq!(room(0, 0, 2, 5).interior_cells(), vec![]);
    assert_eq!(room(0, 0, 5, 2).interior_cells(), vec![]);
    assert_eq!(room(0, 0, 0, 0).interior_cells(), vec![]);
    assert_eq!(room(0, 0, 3, 3).interior_cells(), points(&[(1, 1)]));
}

#[test]
fn room_center_rounds_down() {
    assert_eq!(room(0, 0, 10, 10).center(), IntVector2::new(5, 5));
    assert_eq!(room(-4, 3, 5, 7).center(), IntVector2::new(-2, 6));
    assert_eq!(room(1, 1, 1, 1).center(), IntVector2::new(1, 1));
}

#[test]
fn rooms_that_touch_intersect() {
    let a = room(0, 0, 5, 5);
    assert!(a.intersects(&room(3, 3, 5, 5)));
    assert!(a.intersects(&room(5, 0, 2, 2)));
    assert!(a.intersects(&room(5, 5, 2, 2)));
    assert!(a.intersects(&room(-2, -2, 2, 2)));
    assert!(!a.intersects(&room(6, 0, 2, 2)));
    assert!(!a.intersects(&room(0, 6, 2, 2)));
    assert!(!a.intersects(&room(-3, 0, 2, 2)));
    assert!(!room(6, 0, 2, 2).intersects(&a));
    assert!(a.intersects(&a));
}

#[test]
fn random_rooms_lie_in_their_bounds() {
    for _ in 0..200 {
        let r = Room::create_random(7, 3);
        assert!((0..7).contains(&r.pos().x));
        assert!((0..3).contains(&r.pos().y));
        assert!((5..15).contains(&r.size().width()));
        assert!((5..15).contains(&r.size().height()));
        let q = Room::create_random_in_rect(
            IntVector2::new(-10, 40),
            Dimension2::new(4, 1),
            (2..3, 6..9),
        );
        assert!((-10..-6).contains(&q.pos().x));
        assert_eq!(q.pos().y, 40);
        assert_eq!(q.size().width(), 2);
        assert!((6..9).contains(&q.size().height()));
    }
}

#[test]
fn random_rooms_vary() {
    let rooms: Vec<Room> = (0..64).map(|_| Room::create_random(1000, 1000)).collect();
    assert!(rooms.iter().any(|r| *r != rooms[0]));
}

#[test]
fn placement_keeps_the_first_of_intersecting_rooms() {
    let a = room(0, 0, 5, 5);
    let b = room(3, 3, 5, 5);
    let c = room(9, 9, 5, 5);
    let d = room(20, 0, 5, 5);
    let e = room(14, 14, 2, 2);
    assert_eq!(place_rooms(&vec![a, b, c, d, e]), vec![a, c, d]);
    assert_eq!(place_rooms(&vec![b, a, c, d]), vec![b, c, d]);
    assert_eq!(place_rooms(&vec![]), vec![]);
    assert_eq!(place_rooms(&vec![a, a, a]), vec![a]);
}

#[test]
fn stamped_rooms_have_walls_around_floor() {
    let mut b = builder();
    stamp_rooms(&mut b, &vec![room(0, 0, 4, 3), room(10, 10, 3, 3)], "wall", "floor");
    assert_eq!(b.map.len(), 12 + 9);
    assert_eq!(b.map.get(0, 0).unwrap().kind, TileKind::Wall("wall"));
    assert_eq!(b.map.get(3, 2).unwrap().kind, TileKind::Wall("wall"));
    assert_eq!(b.map.get(1, 1).unwrap().kind, TileKind::Floor);
    assert_eq!(b.map.get(2, 1).unwrap().kind, TileKind::Floor);
    assert_eq!(b.map.get(11, 11).unwrap().kind, TileKind::Floor);
    assert_eq!(b.map.get(12, 11).unwrap().kind, TileKind::Wall("wall"));
    assert_eq!(b.map.get(4, 0), None);
}

#[test]
fn room_builder_places_disjoint_rooms_and_publishes_them() {
    let mut b = builder();
    let step = RoomBuilder::new();
    assert_eq!(step.attempts, 30);
    assert_eq!(step.wall_name, "wall");
    assert_eq!(step.floor_name, "floor");
    let candidates = step.draw_candidates(&b.extent);
    assert_eq!(candidates.len(), 30);
    for c in &candidates {
        assert!(b.extent.contains(c.pos().x, c.pos().y));
        assert!((5..15).contains(&c.size().width()));
        assert!((5..15).contains(&c.size().height()));
    }
    step.build(&mut b);
    assert!(!b.rooms.is_empty());
    assert!(b.rooms.len() <= 30);
    for (i, r) in b.rooms.iter().enumerate() {
        for other in &b.rooms[..i] {
            assert!(!r.intersects(other));
        }
        for c in r.border_cells() {
            assert_eq!(b.map.get(c.x, c.y).unwrap().kind, TileKind::Wall("wall"));
        }
        for c in r.interior_cells() {
            assert_eq!(b.map.get(c.x, c.y).unwrap().kind, TileKind::Floor);
        }
    }
    let cells: usize = b.rooms.iter().map(|r| r.cells().len()).sum();
    assert_eq!(b.map.len(), cells);
}

#[test]
fn default_room_builder_is_the_new_one() {
    let d = RoomBuilder::default();
    assert_eq!(d.attempts, 30);
    assert_eq!(d.wall_name, "wall");
    assert_eq!(d.floor_name, "floor");
}

#[test]
fn world_has_floor_walls_and_rooms() {
    let mut choices: Vec<Option<String>> = vec![None; 100 * 100];
    // column 0, rows 0 and 1; column 60, row 70
    choices[0] = Some("wall2".to_owned());
    choices[1] = Some("wall".to_owned());
    choices[60 * 100 + 70] = Some("wall2".to_owned());
    let (map, level) = generate_world_map(choices);
    assert!(!level.rooms.is_empty());
    let in_room = |x: i32, y: i32| {
        level.rooms.iter().any(|r| {
            let p = r.pos();
            x >= p.x
                && x < p.x + r.size().width() as i32
                && y >= p.y
                && y < p.y + r.size().height() as i32
        })
    };
    for x in -12..=102 {
        for y in -12..=102 {
            if in_room(x, y) {
                assert!(map.get(x, y).is_some());
                continue;
            }
            let expected = if (x, y) == (0, 0) || (x, y) == (60, 70) {
                Some(TileKind::Wall("wall2"))
            } else if (x, y) == (0, 1) {
                Some(TileKind::Wall("wall"))
            } else if (-10..40).contains(&x) && (-10..40).contains(&y) {
                Some(TileKind::Floor)
            } else {
                None
            };
            assert_eq!(map.get(x, y).map(|t| t.kind), expected, "({}, {})", x, y);
        }
    }
    for r in &level.rooms {
        let c = r.center();
        assert_eq!(map.get(c.x, c.y).unwrap().kind, TileKind::Floor);
        assert_eq!(map.get(r.pos().x, r.pos().y).unwrap().kind, TileKind::Wall("wall"));
    }
}
