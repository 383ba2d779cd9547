//! The rules of the game: what follows from an input, an intent or an event.
//! Each rule is a function of plain state; running it for every entity and
//! carrying out what it orders is left to the caller.

use vstd::prelude::*;
use crate::components::{
    first_item,
    CharacterInfo,
    DrinkEffect,
    DrinkIntent,
    Gold,
    Health,
    Interaction,
    Interactions,
    Inventory,
    MoveAction,
    MoveIntent,
    PickIntent,
    Position,
    UseKind,
    Xp,
};
use crate::events::{ChangeGameStateEvent, UpdateAvailableInteractionsEvent};
use crate::map::GameMap;
use crate::random::random_in_range;
use crate::resources::{CurrentCellInfo, GameContext, GameState};
use crate::tile::{ItemContainer, Tile, Walkable};
use crate::tiles::{TestTile, TestTileView};
use crate::user_input::{KeyInput, KEY_I};
use crate::vector::IntVector2;

verus! {

/// What the player's input asks for: a move, a change of what the game
/// shows, both or neither.
#[derive(Debug, Clone, Copy, PartialEq, Eq, Structural)]
pub struct PlayerOrders {
    pub move_intent: Option<MoveIntent>,
    pub state_change: Option<ChangeGameStateEvent>,
}

/// The step that an input stands for: one cell right, left, up (towards
/// smaller rows) or down, or no step.
pub open spec fn step_of(key_input: KeyInput) -> (int, int) {
    match key_input {
        KeyInput::Right => (1, 0),
        KeyInput::Left => (-1, 0),
        KeyInput::Up => (0, -1),
        KeyInput::Down => (0, 1),
        _ => (0, 0),
    }
}

/// What the rules order on an input in a state of the game.
pub open spec fn orders_of(state: GameState, key_input: KeyInput, position: Position) -> PlayerOrders {
    match state {
        GameState::PlayGame => PlayerOrders {
            move_intent: if step_of(key_input) != (0int, 0int) {
                Some(
                    MoveIntent {
                        target: IntVector2 {
                            x: (position.x + step_of(key_input).0) as i32,
                            y: (position.y + step_of(key_input).1) as i32,
                        },
                    },
                )
            } else {
                None
            },
            state_change: if key_input == KeyInput::Key(KEY_I) {
                Some(ChangeGameStateEvent { new_state: GameState::ShowInventory })
            } else {
                None
            },
        },
        GameState::ShowInventory => PlayerOrders {
            move_intent: None,
            state_change: if key_input == KeyInput::Quit {
                Some(ChangeGameStateEvent { new_state: GameState::PlayGame })
            } else {
                None
            },
        },
        GameState::Nothing => PlayerOrders { move_intent: None, state_change: None },
    }
}

/// Reads the player's input: while playing, a direction asks for a move to
/// the next cell and the key I opens the inventory; in the inventory, Quit
/// goes back to playing.
pub fn update_player_position(
    state: GameState,
    key_input: KeyInput,
    position: &Position,
) -> (orders: PlayerOrders)
    requires
        state == GameState::PlayGame ==> {
            &&& i32::MIN <= position.x + step_of(key_input).0 <= i32::MAX
            &&& i32::MIN <= position.y + step_of(key_input).1 <= i32::MAX
        },
    ensures
        orders == orders_of(state, key_input, *position),
{
    match state {
        GameState::PlayGame => {
            let mut dx: i32 = 0;
            let mut dy: i32 = 0;
            match key_input {
                KeyInput::Right => {
                    dx = 1;
                },
                KeyInput::Left => {
                    dx = -1;
                },
                KeyInput::Up => {
                    dy = -1;
                },
                KeyInput::Down => {
                    dy = 1;
                },
                _ => {},
            }
            let move_intent = if dx != 0 || dy != 0 {
                Some(MoveIntent { target: IntVector2::new(position.x + dx, position.y + dy) })
            } else {
                None
            };
            let state_change = if key_input == KeyInput::Key(KEY_I) {
                Some(ChangeGameStateEvent::new(GameState::ShowInventory))
            } else {
                None
            };
            PlayerOrders { move_intent, state_change }
        },
        GameState::ShowInventory => {
            let state_change = if key_input == KeyInput::Quit {
                Some(ChangeGameStateEvent::new(GameState::PlayGame))
            } else {
                None
            };
            PlayerOrders { move_intent: None, state_change }
        },
        GameState::Nothing => PlayerOrders { move_intent: None, state_change: None },
    }
}

/// What becomes of a wish to move.
#[derive(Debug, Clone, Copy, PartialEq, Eq, Structural)]
pub enum MoveOutcome {
    /// There is no tile at the target: the wish stays as it is.
    Pending,
    /// The target cannot be walked on: the wish is dropped.
    Blocked,
    /// The entity moves: the wish is dropped.
    Moves(MoveAction),
}

/// Decides a wish to move: onto a walkable tile the entity moves, onto
/// another tile it does not, and where there is no tile the wish waits.
pub fn move_intent_system<T: Tile>(
    entity: u64,
    position: &Position,
    intent: &MoveIntent,
    game_map: &GameMap<T>,
) -> (outcome: MoveOutcome)
    ensures
        !game_map@.contains_key(intent.target) ==> outcome == MoveOutcome::Pending,
        game_map@.contains_key(intent.target) && !T::view_is_walkable(game_map@[intent.target])
            ==> outcome == MoveOutcome::Blocked,
        game_map@.contains_key(intent.target) && T::view_is_walkable(game_map@[intent.target])
            ==> outcome == MoveOutcome::Moves(
            MoveAction {
                entity,
                source: IntVector2 { x: position.x, y: position.y },
                target: intent.target,
            },
        ),
{
    match game_map.tile_at(intent.target) {
        None => MoveOutcome::Pending,
        Some(tile) => {
            if tile.is_walkable() {
                MoveOutcome::Moves(
                    MoveAction {
                        source: IntVector2::new(position.x, position.y),
                        target: intent.target,
                        entity,
                    },
                )
            } else {
                MoveOutcome::Blocked
            }
        },
    }
}

/// The tile at `position` without `item`.
pub open spec fn cell_without(m: Map<IntVector2, TestTileView>, position: Position, item: u64) -> Map<
    IntVector2,
    TestTileView,
> {
    m.insert(
        IntVector2 { x: position.x, y: position.y },
        TestTile::view_remove_item(m[IntVector2 { x: position.x, y: position.y }], item),
    )
}

/// Takes every occurrence of `item` off the tile at `position`.
pub fn remove_item_from_cell(game_map: &mut GameMap<TestTile>, position: &Position, item: u64)
    requires
        old(game_map)@.contains_key(IntVector2 { x: position.x, y: position.y }),
    ensures
        final(game_map)@ == cell_without(old(game_map)@, *position, item),
        final(game_map).size == old(game_map).size,
{
    match game_map.get(position.x, position.y) {
        Some(tile) => {
            let mut tile = tile;
            tile.remove_item(item);
            game_map.set(position.x, position.y, tile);
        },
        None => {},
    }
}

/// The picking up of an item by an entity from the tile at a position.
#[derive(Debug, Clone, Copy, PartialEq, Eq, Structural)]
pub struct PickAction {
    pub entity: u64,
    pub tile_position: Position,
    pub item: u64,
}

impl PickAction {
    /// Takes the item off its tile and puts it last in `inventory`.
    pub fn apply(&self, game_map: &mut GameMap<TestTile>, inventory: &mut Inventory)
        requires
            old(game_map)@.contains_key(
                IntVector2 { x: self.tile_position.x, y: self.tile_position.y },
            ),
        ensures
            final(game_map)@ == cell_without(old(game_map)@, self.tile_position, self.item),
            final(game_map).size == old(game_map).size,
            final(inventory).items@ == old(inventory).items@.push(self.item),
            final(inventory).capacity == old(inventory).capacity,
    {
        remove_item_from_cell(game_map, &self.tile_position, self.item);
        inventory.items.push(self.item);
    }
}

/// Decides a wish to pick up: where it names an item, the item is picked up
/// and the interactions on offer at the position are to be gathered again.
pub fn pick_intent_system(entity: u64, position: &Position, intent: &PickIntent) -> (order: Option<
    (PickAction, UpdateAvailableInteractionsEvent),
>)
    ensures
        order == match intent.item {
            Some(item) => Some(
                (
                    PickAction { entity, tile_position: *position, item },
                    UpdateAvailableInteractionsEvent { position: *position },
                ),
            ),
            None => None,
        },
{
    match intent.item {
        Some(item) => Some(
            (
                PickAction { entity, tile_position: *position, item },
                UpdateAvailableInteractionsEvent { position: *position },
            ),
        ),
        None => None,
    }
}

/// The drinking of an item by an entity standing at a position.
#[derive(Debug, Clone, Copy, PartialEq, Eq, Structural)]
pub struct DrinkAction {
    pub entity: u64,
    pub effect: DrinkEffect,
    pub item: u64,
    pub position: Position,
}

impl DrinkAction {
    /// Adds the effect on health to `health` and takes the item off its tile.
    pub fn apply(&self, health: &mut Health, game_map: &mut GameMap<TestTile>)
        requires
            i32::MIN <= old(health).current + self.effect.health <= i32::MAX,
            old(game_map)@.contains_key(IntVector2 { x: self.position.x, y: self.position.y }),
        ensures
            final(health).current == old(health).current + self.effect.health,
            final(health).max == old(health).max,
            final(game_map)@ == cell_without(old(game_map)@, self.position, self.item),
            final(game_map).size == old(game_map).size,
    {
        if self.effect.health != 0 {
            health.current = health.current + self.effect.health;
        }
        remove_item_from_cell(game_map, &self.position, self.item);
    }
}

/// Decides a wish to drink: where it names an item and an effect, the item
/// is drunk and the interactions on offer at the position are to be gathered
/// again.
pub fn drink_intent_system(entity: u64, position: &Position, intent: &DrinkIntent) -> (order: Option<
    (DrinkAction, UpdateAvailableInteractionsEvent),
>)
    requires
        intent.item.is_some() ==> intent.effect.is_some(),
    ensures
        order == match intent.item {
            Some(item) => Some(
                (
                    DrinkAction {
                        entity,
                        effect: intent.effect.unwrap(),
                        item,
                        position: *position,
                    },
                    UpdateAvailableInteractionsEvent { position: *position },
                ),
            ),
            None => None,
        },
{
    match (intent.item, intent.effect) {
        (Some(item), Some(effect)) => Some(
            (
                DrinkAction { entity, effect, item, position: *position },
                UpdateAvailableInteractionsEvent { position: *position },
            ),
        ),
        _ => None,
    }
}

/// The state of the game after the events, first to last: that of the last
/// event, or the state before where there is no event.
pub open spec fn state_after(state: GameState, events: Seq<ChangeGameStateEvent>) -> GameState {
    if events.len() == 0 {
        state
    } else {
        events.last().new_state
    }
}

/// Takes the state of the game through the events, first to last.
pub fn change_game_state(events: &Vec<ChangeGameStateEvent>, game_ctx: &mut GameContext)
    ensures
        final(game_ctx).state == state_after(old(game_ctx).state, events@),
{
    let mut i: usize = 0;
    while i < events.len()
        invariant
            i <= events.len(),
            game_ctx.state == state_after(old(game_ctx).state, events@.take(i as int)),
        decreases events.len() - i,
    {
        game_ctx.state = events[i].new_state;
        assert(events@.take(i + 1).last() == events@[i as int]);
        i = i + 1;
    }
    assert(events@.take(i as int) =~= events@);
}

/// Gathers again the interactions on offer at a position.
#[derive(Debug, Clone, Copy, PartialEq, Eq, Structural)]
pub struct UpdateAvailableInteractions {
    pub position: Position,
}

/// One gathering for each event, in the order of the events.
pub fn update_available_interactions(events: &Vec<UpdateAvailableInteractionsEvent>) -> (commands:
    Vec<UpdateAvailableInteractions>)
    ensures
        commands@.len() == events@.len(),
        forall|i: int|
            0 <= i < events@.len() ==> (#[trigger] commands@[i]).position == events@[i].position,
{
    let mut commands: Vec<UpdateAvailableInteractions> = Vec::new();
    let mut i: usize = 0;
    while i < events.len()
        invariant
            i <= events.len(),
            commands@.len() == i,
            forall|k: int| 0 <= k < i ==> (#[trigger] commands@[k]).position == events@[k].position,
        decreases events.len() - i,
    {
        commands.push(UpdateAvailableInteractions { position: events[i].position });
        i = i + 1;
    }
    commands
}

/// The interactions of the items that have any, item after item.
pub open spec fn gathered(found: Seq<Option<Interactions>>) -> Seq<Interaction>
    decreases found.len(),
{
    if found.len() == 0 {
        Seq::empty()
    } else {
        let before = gathered(found.drop_last());
        match found.last() {
            Some(interactions) => before + interactions.interactions@,
            None => before,
        }
    }
}

impl UpdateAvailableInteractions {
    /// The items lying on the tile at the position, in their order.
    pub fn items(&self, game_map: &GameMap<TestTile>) -> (items: Vec<u64>)
        requires
            game_map@.contains_key(IntVector2 { x: self.position.x, y: self.position.y }),
        ensures
            items@ == game_map@[IntVector2 { x: self.position.x, y: self.position.y }].items,
    {
        match game_map.items(IntVector2::new(self.position.x, self.position.y)) {
            Some(items) => items,
            None => Vec::new(),
        }
    }

    /// Offers at the current cell the interactions `found` for the items of
    /// its tile, and makes that tile the current one.
    pub fn apply(
        &self,
        game_map: &GameMap<TestTile>,
        found: &Vec<Option<Interactions>>,
        cell_info: &mut CurrentCellInfo,
    )
        requires
            game_map@.contains_key(IntVector2 { x: self.position.x, y: self.position.y }),
        ensures
            final(cell_info).offered() == gathered(found@),
            final(cell_info).current_tile.is_some(),
            final(cell_info).current_tile.unwrap()@ == game_map@[IntVector2 {
                x: self.position.x,
                y: self.position.y,
            }],
    {
        cell_info.clear();
        let mut i: usize = 0;
        while i < found.len()
            invariant
                i <= found.len(),
                cell_info.current_tile == old(cell_info).current_tile,
                cell_info.offered() == gathered(found@.take(i as int)),
            decreases found.len() - i,
        {
            proof {
                assert(found@.take(i + 1).drop_last() =~= found@.take(i as int));
                assert(found@.take(i + 1).last() == found@[i as int]);
            }
            match &found[i] {
                Some(interactions) => {
                    let mut k: usize = 0;
                    let ghost before = cell_info.offered();
                    while k < interactions.interactions.len()
                        invariant
                            k <= interactions.interactions.len(),
                            cell_info.current_tile == old(cell_info).current_tile,
                            cell_info.offered() == before + interactions.interactions@.take(
                                k as int,
                            ),
                        decreases interactions.interactions.len() - k,
                    {
                        cell_info.add_interaction(interactions.interactions[k]);
                        assert(interactions.interactions@.take(k + 1)
                            =~= interactions.interactions@.take(k as int).push(
                            interactions.interactions@[k as int],
                        ));
                        assert(cell_info.offered() =~= before + interactions.interactions@.take(
                            k + 1,
                        ));
                        k = k + 1;
                    }
                    assert(interactions.interactions@.take(k as int)
                        =~= interactions.interactions@);
                },
                None => {},
            }
            i = i + 1;
        }
        assert(found@.take(i as int) =~= found@);
        match game_map.get(self.position.x, self.position.y) {
            Some(tile) => {
                cell_info.set_current_tile(tile);
            },
            None => {},
        }
    }
}

/// A wish that an interaction raises.
#[derive(Debug)]
pub enum UserIntent {
    Pick(PickIntent),
    Drink(DrinkIntent),
}

/// An interaction offered under `key_input` raises a wish.
pub open spec fn raises_intent(interaction: Interaction, key_input: KeyInput) -> bool {
    key_input != KeyInput::Nothing && interaction.key == key_input && interaction.kind
        != UseKind::Nothing
}

/// The interactions that raise a wish, in the order they are offered.
pub open spec fn raised(offered: Seq<Interaction>, key_input: KeyInput) -> Seq<Interaction> {
    offered.filter(|i: Interaction| raises_intent(i, key_input))
}

/// `intent` is the wish that `interaction` raises on `tile`.
pub open spec fn is_intent_of(
    intent: UserIntent,
    interaction: Interaction,
    tile: Option<TestTile>,
) -> bool {
    match (intent, interaction.kind) {
        (UserIntent::Pick(pick), UseKind::Pick) => {
            &&& pick.item == first_item(tile)
            &&& pick.tile.is_some() == tile.is_some()
            &&& tile.is_some() ==> pick.tile.unwrap()@ == tile.unwrap()@
        },
        (UserIntent::Drink(drink), UseKind::Drink(effect)) => {
            &&& drink.item == first_item(tile)
            &&& drink.effect == Some(effect)
        },
        _ => false,
    }
}

/// Reads the player's input against the interactions on offer: each offered
/// interaction under the pressed key raises its wish, to pick up or to drink
/// the first item of the current tile.
pub fn user_interact(key_input: KeyInput, cell_info: &CurrentCellInfo) -> (intents: Vec<UserIntent>)
    requires
        cell_info.current_tile.is_none() ==> forall|i: int|
            0 <= i < cell_info.offered().len() ==> !((#[trigger] cell_info.offered()[i]).key
                == key_input && cell_info.offered()[i].kind is Drink),
    ensures
        intents@.len() == raised(cell_info.offered(), key_input).len(),
        forall|i: int|
            0 <= i < intents@.len() ==> is_intent_of(
                #[trigger] intents@[i],
                raised(cell_info.offered(), key_input)[i],
                cell_info.current_tile,
            ),
{
    let ghost wanted = |i: Interaction| raises_intent(i, key_input);
    let ghost offered = cell_info.offered();
    let mut intents: Vec<UserIntent> = Vec::new();
    if key_input == KeyInput::Nothing {
        proof {
            if offered.filter(wanted).len() > 0 {
                Seq::lemma_filter_pred(offered, wanted, 0);
            }
        }
        return intents;
    }
    let mut n: usize = 0;
    proof {
        assert(offered.take(0) =~= Seq::<Interaction>::empty());
        reveal_with_fuel(Seq::filter, 1);
    }
    while n < cell_info.interactions.len()
        invariant
            n <= cell_info.interactions.len(),
            offered == cell_info.offered(),
            wanted == |i: Interaction| raises_intent(i, key_input),
            key_input != KeyInput::Nothing,
            cell_info.current_tile.is_none() ==> forall|i: int|
                0 <= i < offered.len() ==> !((#[trigger] offered[i]).key == key_input
                    && offered[i].kind is Drink),
            intents@.len() == offered.take(n as int).filter(wanted).len(),
            forall|i: int|
                0 <= i < intents@.len() ==> is_intent_of(
                    #[trigger] intents@[i],
                    offered.take(n as int).filter(wanted)[i],
                    cell_info.current_tile,
                ),
        decreases cell_info.interactions.len() - n,
    {
        let interaction = cell_info.interactions[n];
        proof {
            assert(offered.take(n + 1) =~= offered.take(n as int).push(interaction));
            Seq::lemma_filter_push(offered.take(n as int), interaction, wanted);
        }
        let ghost before = intents@;
        if interaction.key == key_input {
            match interaction.kind {
                UseKind::Pick => {
                    intents.push(UserIntent::Pick(PickIntent::from(cell_info.current_tile())));
                },
                UseKind::Drink(effect) => {
                    assert(offered[n as int] == interaction);
                    match &cell_info.current_tile {
                        Some(tile) => {
                            intents.push(UserIntent::Drink(DrinkIntent::from(tile, effect)));
                        },
                        None => {
                            assert(false);
                        },
                    }
                },
                UseKind::Nothing => {},
            }
        }
        proof {
            assert forall|i: int| 0 <= i < intents@.len() implies is_intent_of(
                #[trigger] intents@[i],
                offered.take(n + 1).filter(wanted)[i],
                cell_info.current_tile,
            ) by {
                if i < before.len() {
                    assert(intents@[i] == before[i]);
                }
            }
        }
        n = n + 1;
    }
    assert(offered.take(n as int) =~= offered);
    intents
}

/// A new player: where they stand, what they are and what they carry.
#[derive(Debug)]
pub struct PlayerSheet {
    pub position: Position,
    pub health: Health,
    pub inventory: Inventory,
    pub info: CharacterInfo,
}

/// Number of items that a new player can carry.
pub const PLAYER_CAPACITY: usize = 10;

/// The player that the drawn abilities, health and gold make: at the
/// origin, in full health, with an empty inventory and with as much
/// experience as strength and stamina together.
pub fn create_player(
    strength: i32,
    stamina: i32,
    intelligence: i32,
    dexterity: i32,
    hp: i32,
    gold: i32,
) -> (sheet: PlayerSheet)
    requires
        i32::MIN <= strength + stamina <= i32::MAX,
    ensures
        sheet.position == (Position { x: 0, y: 0 }),
        sheet.health == (Health { current: hp, max: hp }),
        sheet.inventory.items@ == Seq::<u64>::empty(),
        sheet.inventory.capacity == PLAYER_CAPACITY,
        sheet.info.strength == strength,
        sheet.info.stamina == stamina,
        sheet.info.intelligence == intelligence,
        sheet.info.dexterity == dexterity,
        sheet.info.name@ == "Player"@,
        sheet.info.xp == (Xp { current: (strength + stamina) as i32, max: (strength + stamina) as i32 }),
        sheet.info.gold == (Gold { current: gold, total: gold }),
{
    let xp = strength + stamina;
    PlayerSheet {
        position: Position { x: 0, y: 0 },
        health: Health { current: hp, max: hp },
        inventory: Inventory { items: Vec::new(), capacity: PLAYER_CAPACITY },
        info: CharacterInfo {
            name: "Player".to_owned(),
            strength,
            stamina,
            intelligence,
            dexterity,
            xp: Xp { current: xp, max: xp },
            gold: Gold { current: gold, total: gold },
        },
    }
}

/// A position drawn at random around `center`: each coordinate moved by at
/// least `low` and by less than `high`.
pub fn scattered(center: &Position, low: i32, high: i32) -> (p: Position)
    requires
        low < high,
        i32::MIN <= center.x + low,
        center.x + high - 1 <= i32::MAX,
        i32::MIN <= center.y + low,
        center.y + high - 1 <= i32::MAX,
    ensures
        center.x + low <= p.x < center.x + high,
        center.y + low <= p.y < center.y + high,
{
    let dx = random_in_range(low as i64, high as i64);
    let dy = random_in_range(low as i64, high as i64);
    Position { x: (center.x as i64 + dx) as i32, y: (center.y as i64 + dy) as i32 }
}

} // verus!
