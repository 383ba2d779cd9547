use rs_nonamerl_core::extent::IntExtent2;
use rs_nonamerl_core::map::{GameMap, MapCommand, MapCommands, MapVisibleTilesIter};
use rs_nonamerl_core::tile::{Visible, Visited};
use rs_nonamerl_core::tiles::{TestTile, TileKind};
use rs_nonamerl_core::vector::IntVector2;

fn floor() -> TestTile {
    TestTile::new(TileKind::Floor)
}

#[test]
fn new_map_is_empty() {
    let map = GameMap::<TestTile>::new();
    assert!(map.is_empty());
    assert_eq!(map.len(), 0);
    assert_eq!(map.size.width(), 0);
    assert_eq!(map.size.height(), 0);
    assert_eq!(map.get(0, 0), None);
    assert_eq!(map.get_position(IntVector2::new(3, 4)), None);
    assert!(map.tile_at(IntVector2::new(0, 0)).is_none());
    let d: GameMap<TestTile> = Default::default();
    assert!(d.is_empty());
}

#[test]
fn set_then_get_gives_a_copy() {
    let mut map = GameMap::<TestTile>::new();
    map.set(2, -3, floor());
    map.set(2, -2, TestTile::new(TileKind::Wall("wall")));
    assert_eq!(map.len(), 2);
    assert!(!map.is_empty());
    assert_eq!(map.get(2, -3), Some(floor()));
    assert_eq!(map.get_position(IntVector2::new(2, -2)), Some(TestTile::new(TileKind::Wall("wall"))));
    assert_eq!(map.get(-3, 2), None);
    let mut copy = map.get(2, -3).unwrap();
    copy.set_visited(true);
    assert!(!map.get(2, -3).unwrap().is_visited());
    map.set(2, -3, TestTile::new(TileKind::Grass));
    assert_eq!(map.len(), 2);
    assert_eq!(map.get(2, -3).unwrap().kind, TileKind::Grass);
}

#[test]
fn flags_and_items_change_one_tile_in_place() {
    let mut map = GameMap::<TestTile>::new();
    let here = IntVector2::new(1, 1);
    let there = IntVector2::new(1, 2);
    map.set(1, 1, floor());
    map.set(1, 2, floor());
    map.set_visited(here, true);
    map.set_visible(here, true);
    map.add_item(here, 11);
    map.add_item(here, 12);
    let t = map.get_position(here).unwrap();
    assert!(t.is_visited() && t.is_visible());
    assert_eq!(map.items(here), Some(vec![11, 12]));
    assert_eq!(map.get_position(there), Some(floor()));
    assert_eq!(map.items(there), None);
    map.remove_item(here, 11);
    assert_eq!(map.items(here), Some(vec![12]));
    map.set_visible(here, false);
    assert!(!map.get_position(here).unwrap().is_visible());
    assert!(map.get_position(here).unwrap().is_visited());
}

#[test]
fn changes_to_an_absent_cell_do_nothing() {
    let mut map = GameMap::<TestTile>::new();
    let nowhere = IntVector2::new(9, 9);
    map.set_visited(nowhere, true);
    map.set_visible(nowhere, true);
    map.add_item(nowhere, 1);
    map.remove_item(nowhere, 1);
    assert!(map.is_empty());
    assert_eq!(map.items(nowhere), None);
    assert_eq!(map.get_position(nowhere), None);
}

#[test]
fn map_clone_is_a_snapshot() {
    let mut map = GameMap::<TestTile>::new();
    map.set(0, 0, floor());
    let snapshot = map.clone();
    map.set_visited(IntVector2::new(0, 0), true);
    map.set(5, 5, floor());
    assert_eq!(snapshot.len(), 1);
    assert!(!snapshot.get(0, 0).unwrap().is_visited());
    assert_eq!(snapshot.get(5, 5), None);
}

#[test]
fn map_line_runs_from_start_to_end() {
    let map = GameMap::<TestTile>::new();
    let cells = map.line(IntVector2::new(0, 0), IntVector2::new(-3, 0));
    assert_eq!(
        cells,
        vec![
            IntVector2::new(0, 0),
            IntVector2::new(-1, 0),
            IntVector2::new(-2, 0),
            IntVector2::new(-3, 0)
        ]
    );
}

#[test]
fn commands_are_applied_in_order_and_the_batch_is_emptied() {
    let mut map = GameMap::<TestTile>::new();
    map.set(0, 0, floor());
    map.set(1, 0, floor());
    let a = IntVector2::new(0, 0);
    let b = IntVector2::new(1, 0);
    let mut commands = MapCommands::default();
    assert!(commands.is_empty());
    commands.add(MapCommand::SetVisited(a, true));
    commands.add_all(vec![
        MapCommand::SetVisible(a, true),
        MapCommand::AddItem(b, 5),
        MapCommand::AddItem(b, 6),
        MapCommand::RemoveItem(b, 5),
        MapCommand::SetVisible(a, false),
        MapCommand::SetVisited(IntVector2::new(7, 7), true),
    ]);
    assert!(!commands.is_empty());
    assert_eq!(commands.commands.len(), 7);
    assert_eq!(commands.commands[0], MapCommand::SetVisited(a, true));
    assert_eq!(commands.commands[6], MapCommand::SetVisited(IntVector2::new(7, 7), true));
    commands.process_commands(&mut map);
    assert!(commands.is_empty());
    let ta = map.get_position(a).unwrap();
    assert!(ta.is_visited());
    assert!(!ta.is_visible());
    assert_eq!(map.items(b), Some(vec![6]));
    assert_eq!(map.len(), 2);
}

#[test]
fn cleared_commands_are_not_applied() {
    let mut map = GameMap::<TestTile>::new();
    map.set(0, 0, floor());
    let mut commands = MapCommands::new();
    commands.add(MapCommand::SetVisited(IntVector2::new(0, 0), true));
    commands.clear();
    assert!(commands.is_empty());
    commands.process_commands(&mut map);
    assert_eq!(map.get(0, 0), Some(floor()));
}

#[test]
fn tile_cursor_passes_over_empty_cells() {
    let mut map = GameMap::<TestTile>::new();
    map.set(1, 0, floor());
    map.set(0, 1, TestTile::new(TileKind::Grass));
    map.set(2, 1, TestTile::new(TileKind::Wall("wall")));
    map.set(5, 5, floor());
    let extent = IntExtent2::new(0, 0, 3, 2);
    let mut it = map.iter_over_visible_tiles(&extent);
    assert_eq!(it.next(), Some((IntVector2::new(1, 0), floor())));
    assert_eq!(it.next(), Some((IntVector2::new(0, 1), TestTile::new(TileKind::Grass))));
    assert_eq!(it.next(), Some((IntVector2::new(2, 1), TestTile::new(TileKind::Wall("wall")))));
    assert_eq!(it.next(), None);
    assert_eq!(it.next(), None);
    let empty = IntExtent2::new(10, 10, 4, 4);
    let mut none = MapVisibleTilesIter::new(&map, &empty);
    assert_eq!(none.next(), None);
}
