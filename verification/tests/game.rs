use rs_nonamerl_core::action::{
    EntityAction, EntityActionQueue, EntityActivatorFunctionResult, EntityQueue, MoveActionParams,
    TakeDamageActionParams,
};
use rs_nonamerl_core::components::{
    DrinkEffect, DrinkIntent, Health, Interaction, Interactions, Inventory, ItemKind, MoveAction,
    MoveIntent, PickIntent, Position, UseKind,
};
use rs_nonamerl_core::events::{ChangeGameStateEvent, UpdateAvailableInteractionsEvent};
use rs_nonamerl_core::map::GameMap;
use rs_nonamerl_core::resources::{CurrentCellInfo, GameContext, GameState};
use rs_nonamerl_core::sprite::{AddSpriteOptions, SpriteConfig};
use rs_nonamerl_core::systems::{
    change_game_state, create_player, drink_intent_system, move_intent_system, pick_intent_system,
    remove_item_from_cell, scattered, update_available_interactions, update_player_position,
    user_interact, DrinkAction, MoveOutcome, PickAction, UpdateAvailableInteractions, UserIntent,
};
use rs_nonamerl_core::tile::ItemContainer;
use rs_nonamerl_core::tiles::{TestTile, TileKind};
use rs_nonamerl_core::user_input::KeyInput;
use rs_nonamerl_core::vector::IntVector2;

fn small_map() -> GameMap<TestTile> {
    let mut map = GameMap::<TestTile>::new();
    map.set(0, 0, TestTile::new(TileKind::Floor));
    map.set(1, 0, TestTile::new(TileKind::Wall("wall")));
    map.set(0, 1, TestTile::new(TileKind::Grass));
    map
}

#[test]
fn keys_map_to_inputs() {
    assert_eq!(KeyInput::from_key(None), KeyInput::Nothing);
    assert_eq!(KeyInput::from_key(Some(0x0041)), KeyInput::Left);
    assert_eq!(KeyInput::from_key(Some(0xff51)), KeyInput::Left);
    assert_eq!(KeyInput::from_key(Some(0x0044)), KeyInput::Right);
    assert_eq!(KeyInput::from_key(Some(0xff53)), KeyInput::Right);
    assert_eq!(KeyInput::from_key(Some(0x0057)), KeyInput::Up);
    assert_eq!(KeyInput::from_key(Some(0xff52)), KeyInput::Up);
    assert_eq!(KeyInput::from_key(Some(0x0053)), KeyInput::Down);
    assert_eq!(KeyInput::from_key(Some(0xff54)), KeyInput::Down);
    assert_eq!(KeyInput::from_key(Some(0xff1b)), KeyInput::Quit);
    assert_eq!(KeyInput::from_key(Some(0xffe3)), KeyInput::CtrlKey(0xffe3));
    assert_eq!(KeyInput::from_key(Some(0xffe4)), KeyInput::CtrlKey(0xffe4));
    assert_eq!(KeyInput::from_key(Some(0xffe9)), KeyInput::AltKey(0xffe9));
    assert_eq!(KeyInput::from_key(Some(0xffea)), KeyInput::AltKey(0xffea));
    assert_eq!(KeyInput::from_key(Some(0xffe1)), KeyInput::ShiftKey(0xffe1));
    assert_eq!(KeyInput::from_key(Some(0xffe2)), KeyInput::ShiftKey(0xffe2));
    assert_eq!(KeyInput::from_key(Some(0x0049)), KeyInput::Key(0x0049));
    assert_eq!(KeyInput::from_key(Some(0x0020)), KeyInput::Key(0x0020));
    assert_eq!(KeyInput::default(), KeyInput::Nothing);
}

#[test]
fn directions_ask_for_a_move_while_playing() {
    let at = Position { x: 3, y: -2 };
    let cases = [
        (KeyInput::Right, (4, -2)),
        (KeyInput::Left, (2, -2)),
        (KeyInput::Up, (3, -3)),
        (KeyInput::Down, (3, -1)),
    ];
    for (key, (x, y)) in cases {
        let orders = update_player_position(GameState::PlayGame, key, &at);
        assert_eq!(orders.move_intent, Some(MoveIntent { target: IntVector2::new(x, y) }));
        assert_eq!(orders.state_change, None);
    }
    let idle = update_player_position(GameState::PlayGame, KeyInput::Nothing, &at);
    assert_eq!(idle.move_intent, None);
    assert_eq!(idle.state_change, None);
    let quit = update_player_position(GameState::PlayGame, KeyInput::Quit, &at);
    assert_eq!(quit.move_intent, None);
    assert_eq!(quit.state_change, None);
}

#[test]
fn inventory_opens_and_closes() {
    let at = Position::default();
    let open = update_player_position(GameState::PlayGame, KeyInput::Key(0x0049), &at);
    assert_eq!(open.state_change, Some(ChangeGameStateEvent::new(GameState::ShowInventory)));
    assert_eq!(open.move_intent, None);
    let close = update_player_position(GameState::ShowInventory, KeyInput::Quit, &at);
    assert_eq!(close.state_change, Some(ChangeGameStateEvent::new(GameState::PlayGame)));
    let stay = update_player_position(GameState::ShowInventory, KeyInput::Right, &at);
    assert_eq!(stay.state_change, None);
    assert_eq!(stay.move_intent, None);
    let off = update_player_position(GameState::Nothing, KeyInput::Right, &at);
    assert_eq!(off.state_change, None);
    assert_eq!(off.move_intent, None);
}

#[test]
fn state_follows_the_last_event() {
    let mut ctx = GameContext::default();
    assert_eq!(ctx.state, GameState::Nothing);
    change_game_state(&vec![], &mut ctx);
    assert_eq!(ctx.state, GameState::Nothing);
    change_game_state(
        &vec![
            ChangeGameStateEvent::new(GameState::ShowInventory),
            ChangeGameStateEvent::new(GameState::PlayGame),
        ],
        &mut ctx,
    );
    assert_eq!(ctx.state, GameState::PlayGame);
    assert_eq!(GameState::default(), GameState::Nothing);
}

#[test]
fn moves_go_onto_walkable_tiles_only() {
    let map = small_map();
    let at = Position { x: 0, y: 0 };
    let onto = |x, y| move_intent_system(9, &at, &MoveIntent { target: IntVector2::new(x, y) }, &map);
    assert_eq!(
        onto(0, 1),
        MoveOutcome::Moves(MoveAction {
            entity: 9,
            source: IntVector2::new(0, 0),
            target: IntVector2::new(0, 1)
        })
    );
    assert_eq!(onto(1, 0), MoveOutcome::Blocked);
    assert_eq!(onto(5, 5), MoveOutcome::Pending);
    let mut position = at;
    MoveAction { entity: 9, source: IntVector2::new(0, 0), target: IntVector2::new(0, 1) }
        .apply(&mut position);
    assert_eq!(position, Position { x: 0, y: 1 });
}

#[test]
fn pick_intent_names_the_first_item() {
    let none = PickIntent::new();
    assert_eq!(none.item, None);
    assert_eq!(none.tile, None);
    let empty = PickIntent::from(None);
    assert_eq!(empty.item, None);
    assert_eq!(empty.tile, None);
    let mut tile = TestTile::new(TileKind::Floor);
    let bare = PickIntent::from(Some(tile.clone()));
    assert_eq!(bare.item, None);
    assert_eq!(bare.tile, Some(tile.clone()));
    tile.add_item(4);
    tile.add_item(8);
    let pick = PickIntent::from(Some(tile.clone()));
    assert_eq!(pick.item, Some(4));
    assert_eq!(pick.tile, Some(tile.clone()));
    let effect = DrinkEffect { health: 10, stamina: 5, mana: 5 };
    let drink = DrinkIntent::from(&tile, effect);
    assert_eq!(drink.item, Some(4));
    assert_eq!(drink.effect, Some(effect));
    assert_eq!(DrinkIntent::from(&TestTile::default(), effect).item, None);
}

#[test]
fn picking_moves_the_item_to_the_inventory() {
    let mut map = small_map();
    let at = Position { x: 0, y: 1 };
    map.add_item(IntVector2::new(0, 1), 21);
    map.add_item(IntVector2::new(0, 1), 22);
    let intent = PickIntent::from(map.get(0, 1));
    let (action, event) = pick_intent_system(3, &at, &intent).unwrap();
    assert_eq!(action, PickAction { entity: 3, tile_position: at, item: 21 });
    assert_eq!(event, UpdateAvailableInteractionsEvent { position: at });
    assert_eq!(pick_intent_system(3, &at, &PickIntent::new()), None);
    let mut inventory = Inventory { items: vec![1], capacity: 10 };
    action.apply(&mut map, &mut inventory);
    assert_eq!(inventory.items, vec![1, 21]);
    assert_eq!(inventory.capacity, 10);
    assert_eq!(map.items(IntVector2::new(0, 1)), Some(vec![22]));
    assert_eq!(map.len(), 3);
}

#[test]
fn drinking_heals_and_uses_the_item_up() {
    let mut map = small_map();
    let at = Position { x: 0, y: 0 };
    map.add_item(IntVector2::new(0, 0), 30);
    let effect = DrinkEffect { health: 10, stamina: 5, mana: 5 };
    let intent = DrinkIntent::from(&map.get(0, 0).unwrap(), effect);
    let (action, event) = drink_intent_system(1, &at, &intent).unwrap();
    assert_eq!(action, DrinkAction { entity: 1, effect, item: 30, position: at });
    assert_eq!(event.position, at);
    let mut health = Health { current: 95, max: 100 };
    action.apply(&mut health, &mut map);
    assert_eq!(health, Health { current: 105, max: 100 });
    assert_eq!(map.items(IntVector2::new(0, 0)), None);
    let nothing = DrinkIntent { item: None, effect: Some(effect) };
    assert_eq!(drink_intent_system(1, &at, &nothing), None);
    let harmless =
        DrinkAction { entity: 1, effect: DrinkEffect::default(), item: 1, position: at };
    harmless.apply(&mut health, &mut map);
    assert_eq!(health.current, 105);
}

#[test]
fn removing_an_item_keeps_the_others() {
    let mut map = small_map();
    let cell = IntVector2::new(0, 0);
    for item in [5, 6, 5, 7] {
        map.add_item(cell, item);
    }
    remove_item_from_cell(&mut map, &Position { x: 0, y: 0 }, 5);
    assert_eq!(map.items(cell), Some(vec![6, 7]));
    assert_eq!(map.get(0, 1), Some(TestTile::new(TileKind::Grass)));
}

#[test]
fn interactions_are_gathered_item_by_item() {
    let mut map = small_map();
    let at = Position { x: 0, y: 0 };
    map.add_item(IntVector2::new(0, 0), 40);
    map.add_item(IntVector2::new(0, 0), 41);
    map.add_item(IntVector2::new(0, 0), 42);
    let events = vec![
        UpdateAvailableInteractionsEvent { position: at },
        UpdateAvailableInteractionsEvent { position: Position { x: 0, y: 1 } },
    ];
    let commands = update_available_interactions(&events);
    assert_eq!(
        commands,
        vec![
            UpdateAvailableInteractions { position: at },
            UpdateAvailableInteractions { position: Position { x: 0, y: 1 } }
        ]
    );
    assert_eq!(commands[0].items(&map), vec![40, 41, 42]);
    assert_eq!(commands[1].items(&map), Vec::<u64>::new());
    let pick = Interaction::new(KeyInput::Key(0x45), UseKind::Pick);
    let drink = Interaction::new(
        KeyInput::Key(0x59),
        UseKind::Drink(DrinkEffect { health: 10, stamina: 5, mana: 5 }),
    );
    let mut first = Interactions::new();
    first.add(KeyInput::Key(0x45), UseKind::Pick);
    first.add(drink.key, drink.kind);
    let mut third = Interactions::default();
    third.add(KeyInput::Key(0x45), UseKind::Pick);
    let found = vec![Some(first), None, Some(third)];
    let mut info = CurrentCellInfo::new();
    info.add_interaction(Interaction::default());
    commands[0].apply(&map, &found, &mut info);
    assert_eq!(info.len(), 3);
    assert_eq!(info.interactions(), vec![pick, drink, pick]);
    assert_eq!(info.current_tile(), map.get(0, 0));
    assert_eq!(info.current_tile().unwrap().items(), Some(vec![40, 41, 42]));
}

#[test]
fn cell_info_collects_and_clears() {
    let mut info = CurrentCellInfo::default();
    assert_eq!(info.len(), 0);
    assert_eq!(info.current_tile(), None);
    let a = Interaction::new(KeyInput::Key(1), UseKind::Pick);
    let b = Interaction::new(KeyInput::Key(2), UseKind::Nothing);
    info.add_interaction(a);
    info.add_all(vec![b, a]);
    assert_eq!(info.interactions(), vec![a, b, a]);
    info.set_current_tile(TestTile::new(TileKind::Grass));
    info.clear();
    assert_eq!(info.len(), 0);
    assert_eq!(info.current_tile(), Some(TestTile::new(TileKind::Grass)));
    assert_eq!(Interaction::default(), Interaction::new(KeyInput::Nothing, UseKind::Nothing));
    assert_eq!(UseKind::default(), UseKind::Nothing);
    assert_eq!(ItemKind::default(), ItemKind::Nothing);
}

#[test]
fn pressed_key_raises_the_offered_intents() {
    let mut tile = TestTile::new(TileKind::Floor);
    tile.add_item(50);
    let effect = DrinkEffect { health: 1, stamina: 2, mana: 3 };
    let mut info = CurrentCellInfo::new();
    info.add_all(vec![
        Interaction::new(KeyInput::Key(0x45), UseKind::Pick),
        Interaction::new(KeyInput::Key(0x59), UseKind::Drink(effect)),
        Interaction::new(KeyInput::Key(0x45), UseKind::Nothing),
        Interaction::new(KeyInput::Key(0x45), UseKind::Drink(effect)),
    ]);
    info.set_current_tile(tile.clone());
    assert!(user_interact(KeyInput::Nothing, &info).is_empty());
    assert!(user_interact(KeyInput::Key(0x30), &info).is_empty());
    let intents = user_interact(KeyInput::Key(0x45), &info);
    assert_eq!(intents.len(), 2);
    match &intents[0] {
        UserIntent::Pick(p) => {
            assert_eq!(p.item, Some(50));
            assert_eq!(p.tile, Some(tile.clone()));
        }
        other => panic!("{:?}", other),
    }
    match &intents[1] {
        UserIntent::Drink(d) => {
            assert_eq!(d.item, Some(50));
            assert_eq!(d.effect, Some(effect));
        }
        other => panic!("{:?}", other),
    }
    let drinks = user_interact(KeyInput::Key(0x59), &info);
    assert_eq!(drinks.len(), 1);
    assert!(matches!(drinks[0], UserIntent::Drink(_)));
    let mut bare = CurrentCellInfo::new();
    bare.add_interaction(Interaction::new(KeyInput::Key(0x45), UseKind::Pick));
    let picks = user_interact(KeyInput::Key(0x45), &bare);
    match &picks[0] {
        UserIntent::Pick(p) => {
            assert_eq!(p.item, None);
            assert_eq!(p.tile, None);
        }
        other => panic!("{:?}", other),
    }
}

#[test]
fn new_player_sheet() {
    let sheet = create_player(12, 7, 3, 19, 150, 60);
    assert_eq!(sheet.position, Position { x: 0, y: 0 });
    assert_eq!(sheet.health, Health { current: 150, max: 150 });
    assert!(sheet.inventory.items.is_empty());
    assert_eq!(sheet.inventory.capacity, 10);
    assert_eq!(sheet.info.name, "Player");
    assert_eq!(sheet.info.strength, 12);
    assert_eq!(sheet.info.stamina, 7);
    assert_eq!(sheet.info.intelligence, 3);
    assert_eq!(sheet.info.dexterity, 19);
    assert_eq!(sheet.info.xp.current, 19);
    assert_eq!(sheet.info.xp.max, 19);
    assert_eq!(sheet.info.gold.current, 60);
    assert_eq!(sheet.info.gold.total, 60);
}

#[test]
fn scattered_positions_stay_in_range() {
    let center = Position { x: 100, y: -100 };
    let mut seen = std::collections::HashSet::new();
    for _ in 0..300 {
        let p = scattered(&center, -5, 5);
        assert!((95..105).contains(&p.x));
        assert!((-105..-95).contains(&p.y));
        seen.insert((p.x, p.y));
        let q = scattered(&center, -1, 1);
        assert!((99..101).contains(&q.x));
        assert!((-101..-99).contains(&q.y));
    }
    assert!(seen.len() > 1);
    assert_eq!(scattered(&center, 2, 3), Position { x: 102, y: -98 });
}

#[test]
fn activation_turns_a_blocked_move_into_damage() {
    let map = small_map();
    let walk = |dx, dy| {
        EntityAction::Move(MoveActionParams {
            dx: IntVector2::new(dx, dy),
            start: IntVector2::new(0, 0),
            entity: 6,
        })
    };
    let hurt = EntityAction::TakeDamage(TakeDamageActionParams { target: 6, damage: 10 });
    assert_eq!(walk(1, 0).activate(&map), EntityActivatorFunctionResult::Alternate(hurt));
    assert_eq!(walk(0, 1).activate(&map), EntityActivatorFunctionResult::Proceed);
    assert_eq!(walk(7, 7).activate(&map), EntityActivatorFunctionResult::Proceed);
    assert_eq!(hurt.activate(&map), EntityActivatorFunctionResult::Proceed);
    assert_eq!(EntityAction::Wait.activate(&map), EntityActivatorFunctionResult::Proceed);
    assert_eq!(EntityAction::default(), EntityAction::Nothing);
    assert_eq!(EntityAction::Nothing.activate(&map), EntityActivatorFunctionResult::Proceed);
}

#[test]
fn queue_activates_the_last_action_first() {
    let map = small_map();
    let blocked = EntityAction::Move(MoveActionParams {
        dx: IntVector2::new(1, 0),
        start: IntVector2::new(0, 0),
        entity: 6,
    });
    let free = EntityAction::Move(MoveActionParams {
        dx: IntVector2::new(0, 1),
        start: IntVector2::new(0, 0),
        entity: 6,
    });
    let hurt = EntityAction::TakeDamage(TakeDamageActionParams { target: 6, damage: 10 });
    let mut queue = EntityActionQueue::new();
    assert!(queue.is_empty());
    assert_eq!(queue.process_one(&map), None);
    queue.add(EntityAction::Wait);
    queue.add(free);
    queue.add(blocked);
    assert_eq!(queue.len(), 3);
    assert_eq!(queue.process_one(&map), Some(hurt));
    assert_eq!(queue.len(), 2);
    assert_eq!(queue.process_one(&map), Some(free));
    assert_eq!(queue.process_one(&map), Some(EntityAction::Wait));
    assert_eq!(queue.process_one(&map), None);
    queue.add(blocked);
    queue.add(blocked);
    queue.apply_actions(&map);
    assert!(queue.is_empty());
    queue.add(EntityAction::Wait);
    queue.clear();
    assert_eq!(queue.len(), 0);
}

#[test]
fn sprite_without_a_size_takes_the_sheet_defaults() {
    let defaults = AddSpriteOptions { gap: (1, 1), size: (16, 16) };
    let own = AddSpriteOptions { gap: (0, 2), size: (8, 0) };
    let plain = SpriteConfig { name: "hero".to_owned(), pos: (2, 3), options: Default::default() };
    assert_eq!(plain.effective_options(&defaults), defaults);
    let sized = SpriteConfig { name: "hero".to_owned(), pos: (2, 3), options: own };
    assert_eq!(sized.effective_options(&defaults), own);
    let gap_only = SpriteConfig {
        name: "x".to_owned(),
        pos: (0, 0),
        options: AddSpriteOptions { gap: (3, 3), size: (0, 0) },
    };
    assert_eq!(gap_only.effective_options(&defaults), defaults);
}
