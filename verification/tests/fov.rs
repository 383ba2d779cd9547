use rs_nonamerl_core::fov::{scan_fov, update_fov, FovData};
use rs_nonamerl_core::map::{GameMap, MapCommand, MapCommands};
use rs_nonamerl_core::tile::{Visible, Visited};
use rs_nonamerl_core::tiles::{TestTile, TileKind};
use rs_nonamerl_core::vector::IntVector2;

fn floor_map(half: i32) -> GameMap<TestTile> {
    let mut map = GameMap::<TestTile>::new();
    for x in -half..=half {
        for y in -half..=half {
            map.set(x, y, TestTile::new(TileKind::Floor));
        }
    }
    map
}

fn sorted(mut cells: Vec<IntVector2>) -> Vec<(i32, i32)> {
    cells.sort_by_key(|c| (c.x, c.y));
    cells.iter().map(|c| (c.x, c.y)).collect()
}

#[test]
fn default_fov_has_radius_five_and_sees_nothing() {
    let fov = FovData::default();
    assert_eq!(fov.fov_size, 5);
    assert!(fov.fov_cells.is_empty());
    assert!(fov.current_fov_cells.is_empty());
    assert_eq!(fov.visible_cells(), vec![]);
    assert_eq!(FovData::new(9).fov_size, 9);
}

#[test]
fn wall_stops_the_ray_along_the_row() {
    let mut map = floor_map(12);
    map.set(3, 0, TestTile::new(TileKind::Wall("wall")));
    let mut fov = FovData::new(10);
    let mut commands = MapCommands::default();
    update_fov(&mut fov, &mut map, IntVector2::new(0, 0), &mut commands);
    for x in 0..=2 {
        let t = map.get(x, 0).unwrap();
        assert!(t.is_visited(), "({}, 0) visited", x);
        assert!(t.is_visible(), "({}, 0) visible", x);
    }
    let wall = map.get(3, 0).unwrap();
    assert!(wall.is_visited());
    assert!(!wall.is_visible());
    for x in 4..=12 {
        let t = map.get(x, 0).unwrap();
        assert!(!t.is_visited(), "({}, 0) not visited", x);
        assert!(!t.is_visible(), "({}, 0) not visible", x);
    }
    assert!(commands.is_empty());
    assert!(fov.current_fov_cells.is_empty());
    let seen = sorted(fov.visible_cells());
    assert!(seen.contains(&(0, 0)));
    assert!(seen.contains(&(2, 0)));
    assert!(!seen.contains(&(3, 0)));
    assert!(!seen.contains(&(4, 0)));
    // cells behind the wall off the row are reached by other rays
    assert!(seen.contains(&(4, 1)));
    assert!(map.get(4, 1).unwrap().is_visible());
}

#[test]
fn second_tick_from_the_same_place_changes_no_visibility() {
    let mut map = floor_map(8);
    map.set(2, 2, TestTile::new(TileKind::Wall("wall")));
    map.set(-1, 3, TestTile::new(TileKind::Wall("wall2")));
    let mut fov = FovData::new(5);
    let mut commands = MapCommands::default();
    let viewer = IntVector2::new(0, 0);
    update_fov(&mut fov, &mut map, viewer, &mut commands);
    let seen_first = sorted(fov.visible_cells());
    let snapshot = map.clone();
    let changes = scan_fov(&mut fov, &map, viewer);
    assert!(changes.visited.is_empty());
    assert!(changes.hidden.is_empty());
    assert!(changes.shown.is_empty());
    let mut batch = MapCommands::new();
    changes.stage(&mut batch);
    assert!(batch.is_empty());
    assert_eq!(sorted(fov.visible_cells()), seen_first);
    update_fov(&mut fov, &mut map, viewer, &mut commands);
    assert!(commands.is_empty());
    assert_eq!(sorted(fov.visible_cells()), seen_first);
    for x in -8..=8 {
        for y in -8..=8 {
            assert_eq!(map.get(x, y), snapshot.get(x, y));
        }
    }
}

#[test]
fn open_floor_is_seen_up_to_the_ring() {
    let mut map = floor_map(4);
    let mut fov = FovData::new(2);
    let changes = scan_fov(&mut fov, &map, IntVector2::new(1, 1));
    let mut expected = Vec::new();
    for x in -1..=3 {
        for y in -1..=3 {
            expected.push((x, y));
        }
    }
    assert_eq!(sorted(fov.visible_cells()), expected);
    assert_eq!(sorted(changes.visited.clone()), expected);
    assert_eq!(sorted(changes.shown.clone()), expected);
    assert!(changes.hidden.is_empty());
    // the scan itself leaves the map alone
    assert!(!map.get(1, 1).unwrap().is_visited());
    let mut commands = MapCommands::new();
    changes.stage(&mut commands);
    assert_eq!(commands.commands.len(), 50);
    assert_eq!(commands.commands[0], MapCommand::SetVisited(changes.visited[0], true));
    assert_eq!(commands.commands[25], MapCommand::SetVisible(changes.shown[0], true));
    commands.process_commands(&mut map);
    assert!(map.get(3, 3).unwrap().is_visible());
    assert!(!map.get(4, 3).unwrap().is_visible());
}

#[test]
fn moving_hides_what_falls_out_of_sight() {
    let mut map = floor_map(6);
    let mut fov = FovData::new(1);
    let mut commands = MapCommands::default();
    update_fov(&mut fov, &mut map, IntVector2::new(0, 0), &mut commands);
    assert!(map.get(-1, 0).unwrap().is_visible());
    let changes = scan_fov(&mut fov, &map, IntVector2::new(1, 0));
    assert_eq!(sorted(changes.hidden.clone()), vec![(-1, -1), (-1, 0), (-1, 1)]);
    assert_eq!(sorted(changes.shown.clone()), vec![(2, -1), (2, 0), (2, 1)]);
    assert_eq!(sorted(changes.visited.clone()), vec![(2, -1), (2, 0), (2, 1)]);
    changes.stage(&mut commands);
    commands.process_commands(&mut map);
    let left = map.get(-1, 0).unwrap();
    assert!(left.is_visited());
    assert!(!left.is_visible());
    assert!(map.get(2, 0).unwrap().is_visible());
    assert!(map.get(0, 0).unwrap().is_visible());
}

#[test]
fn missing_tiles_stop_a_ray_and_are_not_marked() {
    let mut map = GameMap::<TestTile>::new();
    for x in 0..=1 {
        map.set(x, 0, TestTile::new(TileKind::Floor));
    }
    map.set(3, 0, TestTile::new(TileKind::Floor));
    let mut fov = FovData::new(4);
    let mut commands = MapCommands::default();
    update_fov(&mut fov, &mut map, IntVector2::new(0, 0), &mut commands);
    assert_eq!(sorted(fov.visible_cells()), vec![(0, 0), (1, 0)]);
    assert!(!map.get(3, 0).unwrap().is_visited());
    assert_eq!(map.len(), 3);
}

#[test]
fn viewer_on_a_wall_sees_only_its_outline() {
    let mut map = floor_map(3);
    map.set(0, 0, TestTile::new(TileKind::Wall("wall")));
    let mut fov = FovData::new(2);
    let changes = scan_fov(&mut fov, &map, IntVector2::new(0, 0));
    assert_eq!(fov.visible_cells(), vec![]);
    assert_eq!(sorted(changes.visited), vec![(0, 0)]);
    assert!(changes.shown.is_empty());
}

#[test]
fn negative_radius_casts_no_ray() {
    let mut map = floor_map(2);
    let mut fov = FovData::new(-3);
    let mut commands = MapCommands::default();
    update_fov(&mut fov, &mut map, IntVector2::new(0, 0), &mut commands);
    assert_eq!(fov.visible_cells(), vec![]);
    assert!(!map.get(0, 0).unwrap().is_visited());
}

#[test]
fn radius_zero_sees_the_viewer_cell() {
    let mut map = floor_map(2);
    let mut fov = FovData::new(0);
    let mut commands = MapCommands::default();
    update_fov(&mut fov, &mut map, IntVector2::new(1, 1), &mut commands);
    assert_eq!(sorted(fov.visible_cells()), vec![(1, 1)]);
    assert!(map.get(1, 1).unwrap().is_visible());
    assert!(!map.get(1, 0).unwrap().is_visited());
}

#[test]
fn staged_commands_are_applied_with_the_tick() {
    let mut map = floor_map(2);
    let mut fov = FovData::new(1);
    let mut commands = MapCommands::default();
    commands.add(MapCommand::AddItem(IntVector2::new(2, 2), 77));
    update_fov(&mut fov, &mut map, IntVector2::new(0, 0), &mut commands);
    assert!(commands.is_empty());
    assert_eq!(map.items(IntVector2::new(2, 2)), Some(vec![77]));
    assert!(map.get(1, 1).unwrap().is_visible());
}

#[test]
fn stale_gathering_is_dropped_at_the_start_of_a_tick() {
    let map = floor_map(2);
    let mut fov = FovData::new(1);
    fov.current_fov_cells.insert(12345);
    let changes = scan_fov(&mut fov, &map, IntVector2::new(0, 0));
    assert_eq!(changes.shown.len(), 9);
    assert_eq!(fov.fov_cells.len(), 9);
    assert!(fov.current_fov_cells.is_empty());
}

#[test]
fn visited_tiles_are_not_marked_again() {
    let mut map = floor_map(3);
    map.set(2, 0, TestTile::new(TileKind::Wall("wall")));
    map.set_visited(IntVector2::new(1, 0), true);
    map.set_visited(IntVector2::new(2, 0), true);
    let mut fov = FovData::new(2);
    let changes = scan_fov(&mut fov, &map, IntVector2::new(0, 0));
    let marked = sorted(changes.visited.clone());
    assert!(!marked.contains(&(1, 0)));
    assert!(!marked.contains(&(2, 0)));
    assert!(marked.contains(&(0, 0)));
    assert!(marked.contains(&(1, 1)));
    assert!(sorted(changes.shown.clone()).contains(&(1, 0)));
    assert!(!sorted(fov.visible_cells()).contains(&(2, 0)));
}

#[test]
fn staged_commands_are_applied_before_the_rays_are_cast() {
    let mut map = GameMap::<TestTile>::new();
    map.set(0, 0, TestTile::new(TileKind::Floor));
    let cell = IntVector2::new(0, 0);
    map.set_visited(cell, true);
    let mut fov = FovData::new(0);
    let mut commands = MapCommands::default();
    commands.add(MapCommand::SetVisited(cell, false));
    update_fov(&mut fov, &mut map, cell, &mut commands);
    let first = map.get(0, 0).unwrap();
    assert!(first.is_visited());
    assert!(first.is_visible());
    assert!(commands.is_empty());
    let changes = scan_fov(&mut fov, &map, cell);
    assert!(changes.visited.is_empty());
    assert!(changes.hidden.is_empty());
    assert!(changes.shown.is_empty());
    update_fov(&mut fov, &mut map, cell, &mut commands);
    assert_eq!(map.get(0, 0), Some(first));
    assert_eq!(sorted(fov.visible_cells()), vec![(0, 0)]);
}

#[test]
fn staged_flags_and_items_do_not_change_what_is_seen() {
    let mut map = floor_map(3);
    let mut fov = FovData::new(2);
    let mut commands = MapCommands::default();
    commands.add(MapCommand::SetVisible(IntVector2::new(3, 3), true));
    commands.add(MapCommand::AddItem(IntVector2::new(1, 0), 9));
    update_fov(&mut fov, &mut map, IntVector2::new(0, 0), &mut commands);
    assert!(map.get(3, 3).unwrap().is_visible());
    assert!(!map.get(3, 3).unwrap().is_visited());
    assert_eq!(map.items(IntVector2::new(1, 0)), Some(vec![9]));
    assert!(map.get(1, 0).unwrap().is_visible());
}
