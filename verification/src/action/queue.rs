//! A stack of actions waiting to be activated.

use vstd::prelude::*;
use crate::action::{activation, EntityAction};
use crate::map::GameMap;
use crate::tile::Tile;
use crate::vector::IntVector2;

verus! {

/// What activating an action leads to.
#[derive(Debug, Clone, Copy, PartialEq, Eq, Structural)]
pub enum EntityActivatorFunctionResult {
    /// The action takes place.
    Proceed,
    /// Another action is to be activated in its place.
    Alternate(EntityAction),
    /// The action is dropped.
    Cancel,
}

/// Actions waiting to be activated; the one added last is activated first.
#[derive(Debug, Clone, Default)]
pub struct EntityActionQueue {
    pub activations: Vec<EntityAction>,
}

impl View for EntityActionQueue {
    type V = Seq<EntityAction>;

    open spec fn view(&self) -> Seq<EntityAction> {
        self.activations@
    }
}

/// Every move waiting in `actions` leads to a cell of the lattice.
pub open spec fn all_fit(actions: Seq<EntityAction>) -> bool {
    forall|i: int| 0 <= i < actions.len() ==> (#[trigger] actions[i]).fits()
}

/// What one round of activation makes of the waiting actions and which
/// action it reports: the last action is taken off; if it takes place it is
/// the one reported; if another action takes its place, that one waits
/// instead and the round goes on; with nothing waiting, nothing is reported.
pub open spec fn round<T: Tile>(actions: Seq<EntityAction>, m: Map<IntVector2, T::V>, fuel: nat) -> (
    Seq<EntityAction>,
    Option<EntityAction>,
)
    decreases fuel,
{
    if actions.len() == 0 || fuel == 0 {
        (actions, None)
    } else {
        match activation::<T>(actions.last(), m) {
            EntityActivatorFunctionResult::Proceed => (actions.drop_last(), Some(actions.last())),
            EntityActivatorFunctionResult::Alternate(other) => round::<T>(
                actions.drop_last().push(other),
                m,
                (fuel - 1) as nat,
            ),
            EntityActivatorFunctionResult::Cancel => round::<T>(
                actions.drop_last(),
                m,
                (fuel - 1) as nat,
            ),
        }
    }
}

/// Number of activations that a round can take: two for each waiting
/// action, as a replaced action is replaced by one that takes place.
pub open spec fn round_fuel(actions: Seq<EntityAction>) -> nat {
    2 * actions.len()
}

pub trait EntityQueue {
    /// The waiting actions, the one to be activated first being the last.
    spec fn waiting(&self) -> Seq<EntityAction>;

    fn add(&mut self, action: EntityAction)
        ensures
            final(self).waiting() == old(self).waiting().push(action),
    ;

    fn process_one<T: Tile>(&mut self, game_map: &GameMap<T>) -> (r: Option<EntityAction>)
        requires
            all_fit(old(self).waiting()),
        ensures
            (final(self).waiting(), r) == round::<T>(
                old(self).waiting(),
                game_map@,
                round_fuel(old(self).waiting()),
            ),
            all_fit(final(self).waiting()),
    ;

    fn clear(&mut self)
        ensures
            final(self).waiting() == Seq::<EntityAction>::empty(),
    ;

    fn is_empty(&self) -> (b: bool)
        ensures
            b == (self.waiting().len() == 0),
    ;

    fn len(&self) -> (n: usize)
        ensures
            n == self.waiting().len(),
    ;

    /// Activates waiting actions until a round reports none.
    fn apply_actions<T: Tile>(&mut self, game_map: &GameMap<T>)
        requires
            all_fit(old(self).waiting()),
        ensures
            final(self).waiting() == Seq::<EntityAction>::empty(),
    ;
}

impl EntityActionQueue {
    pub fn new() -> (q: Self)
        ensures
            q@ == Seq::<EntityAction>::empty(),
    {
        Self { activations: Vec::new() }
    }
}

/// Number of moves among the actions.
pub open spec fn moves_in(actions: Seq<EntityAction>) -> nat
    decreases actions.len(),
{
    if actions.len() == 0 {
        0
    } else {
        moves_in(actions.drop_last()) + if actions.last() is Move {
            1nat
        } else {
            0nat
        }
    }
}

/// A round with more fuel than it needs does the same as one with just enough.
proof fn lemma_round_fuel<T: Tile>(actions: Seq<EntityAction>, m: Map<IntVector2, T::V>, fuel: nat)
    requires
        fuel >= actions.len() + moves_in(actions),
    ensures
        round::<T>(actions, m, fuel) == round::<T>(
            actions,
            m,
            (actions.len() + moves_in(actions)) as nat,
        ),
        actions.len() + moves_in(actions) <= round_fuel(actions),
    decreases fuel,
{
    lemma_moves_bound(actions);
    let need = (actions.len() + moves_in(actions)) as nat;
    if actions.len() > 0 && fuel > 0 {
        match activation::<T>(actions.last(), m) {
            EntityActivatorFunctionResult::Proceed => {},
            EntityActivatorFunctionResult::Alternate(other) => {
                let next = actions.drop_last().push(other);
                assert(next.drop_last() =~= actions.drop_last());
                assert(next.last() == other);
                assert(actions.last() is Move);
                assert(moves_in(next) == moves_in(actions.drop_last()));
                lemma_round_fuel::<T>(next, m, (fuel - 1) as nat);
                lemma_round_fuel::<T>(next, m, (need - 1) as nat);
            },
            EntityActivatorFunctionResult::Cancel => {},
        }
    }
}

proof fn lemma_moves_bound(actions: Seq<EntityAction>)
    ensures
        moves_in(actions) <= actions.len(),
    decreases actions.len(),
{
    if actions.len() > 0 {
        lemma_moves_bound(actions.drop_last());
    }
}

impl EntityQueue for EntityActionQueue {
    open spec fn waiting(&self) -> Seq<EntityAction> {
        self.activations@
    }

    fn add(&mut self, action: EntityAction) {
        self.activations.push(action);
    }

    fn process_one<T: Tile>(&mut self, game_map: &GameMap<T>) -> (r: Option<EntityAction>) {
        let ghost start = self.activations@;
        let ghost m = game_map@;
        proof {
            lemma_moves_bound(start);
            lemma_round_fuel::<T>(start, m, round_fuel(start));
        }
        let mut ret: Option<EntityAction> = None;
        while ret.is_none() && self.activations.len() > 0
            invariant
                game_map@ == m,
                all_fit(self.activations@),
                ret.is_none() ==> round::<T>(start, m, round_fuel(start)) == round::<T>(
                    self.activations@,
                    m,
                    (self.activations@.len() + moves_in(self.activations@)) as nat,
                ),
                ret.is_some() ==> round::<T>(start, m, round_fuel(start)) == (
                    self.activations@,
                    ret,
                ),
            decreases
                    self.activations@.len() + moves_in(self.activations@),
                    if ret.is_none() {
                        1int
                    } else {
                        0int
                    },
        {
            let ghost before = self.activations@;
            match self.activations.pop() {
                Some(action) => {
                    assert(action == before.last());
                    assert(self.activations@ =~= before.drop_last());
                    assert(action.fits());
                    let res = action.activate(game_map);
                    match res {
                        EntityActivatorFunctionResult::Proceed => {
                            ret = Some(action);
                        },
                        EntityActivatorFunctionResult::Alternate(other) => {
                            self.activations.push(other);
                            proof {
                                let next = self.activations@;
                                assert(next.drop_last() =~= before.drop_last());
                                assert(next.last() == other);
                                assert(moves_in(next) == moves_in(before.drop_last()));
                                assert(before.last() is Move);
                                lemma_round_fuel::<T>(
                                    next,
                                    m,
                                    (before.len() + moves_in(before) - 1) as nat,
                                );
                                assert forall|i: int| 0 <= i < next.len() implies (
                                #[trigger] next[i]).fits() by {
                                    if i < next.len() - 1 {
                                        assert(next[i] == before[i]);
                                    }
                                }
                            }
                        },
                        EntityActivatorFunctionResult::Cancel => {},
                    }
                },
                None => {},
            }
        }
        ret
    }

    fn clear(&mut self) {
        self.activations.clear();
    }

    fn is_empty(&self) -> (b: bool) {
        self.activations.is_empty()
    }

    fn len(&self) -> (n: usize) {
        self.activations.len()
    }

    fn apply_actions<T: Tile>(&mut self, game_map: &GameMap<T>) {
        loop
            invariant
                all_fit(self.activations@),
            decreases self.activations@.len() + moves_in(self.activations@),
        {
            let ghost before = self.activations@;
            proof {
                lemma_moves_bound(before);
                lemma_round_shrinks::<T>(before, game_map@, round_fuel(before));
            }
            match self.process_one(game_map) {
                Some(_) => {},
                None => {
                    return ;
                },
            }
        }
    }
}

/// A round that reports an action leaves fewer actions and moves waiting
/// than it found; a round that reports none leaves nothing waiting.
proof fn lemma_round_shrinks<T: Tile>(actions: Seq<EntityAction>, m: Map<IntVector2, T::V>, fuel: nat)
    requires
        fuel >= actions.len() + moves_in(actions),
    ensures
        round::<T>(actions, m, fuel).1.is_some() ==> round::<T>(actions, m, fuel).0.len()
            + moves_in(round::<T>(actions, m, fuel).0) < actions.len() + moves_in(actions),
        round::<T>(actions, m, fuel).1.is_none() ==> round::<T>(actions, m, fuel).0.len() == 0,
    decreases fuel,
{
    if actions.len() > 0 && fuel > 0 {
        match activation::<T>(actions.last(), m) {
            EntityActivatorFunctionResult::Proceed => {},
            EntityActivatorFunctionResult::Alternate(other) => {
                let next = actions.drop_last().push(other);
                assert(next.drop_last() =~= actions.drop_last());
                assert(next.last() == other);
                assert(actions.last() is Move);
                assert(moves_in(next) == moves_in(actions.drop_last()));
                lemma_round_shrinks::<T>(next, m, (fuel - 1) as nat);
            },
            EntityActivatorFunctionResult::Cancel => {},
        }
    } else if actions.len() > 0 {
        lemma_moves_bound(actions);
    }
}

} // verus!
