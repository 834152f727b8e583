use vstd::prelude::*;
use crate::actions::{step, GameAction, StorageEffect};
use crate::state::{fresh_state, GameState};
use crate::upgrades::UpgradesConfig;

verus! {

/// The persistence adapter's view of the key-value store: the snapshot
/// held under the game's key, if any.
#[derive(Clone, Copy, Debug, PartialEq, Eq, Structural)]
pub struct GameStorage {
    pub saved: Option<GameState>,
}

/// The state a game starts from: the stored snapshot, else the first
/// predefined state, else a new game.
pub open spec fn loaded_state(
    saved: Option<GameState>,
    predefined: Seq<GameState>,
    config: UpgradesConfig,
    now_ms: u64,
) -> GameState {
    match saved {
        Some(s) => s,
        None => if predefined.len() > 0 {
            predefined[0]
        } else {
            fresh_state(config, now_ms)
        },
    }
}

impl GameStorage {
    pub open spec fn after_effect(self, effect: StorageEffect, state: GameState) -> GameStorage {
        match effect {
            StorageEffect::Nothing => self,
            StorageEffect::Persist => GameStorage { saved: Some(state) },
            StorageEffect::Clear => GameStorage { saved: None },
        }
    }

    /// A store that holds `saved`, as read from the key-value store.
    pub fn new(saved: Option<GameState>) -> (r: GameStorage)
        ensures
            r.saved == saved,
    {
        GameStorage { saved }
    }

    /// Stores a snapshot of `state`, replacing the previous one.
    pub fn save(&mut self, state: &GameState)
        ensures
            final(self).saved == Some(*state),
    {
        self.saved = Some(*state);
    }

    /// Removes the stored snapshot.
    pub fn clear(&mut self)
        ensures
            final(self).saved is None,
    {
        self.saved = None;
    }

    /// Carries out what an action asked of storage, given the state after
    /// that action.
    pub fn apply(&mut self, effect: StorageEffect, state: &GameState)
        ensures
            *final(self) == old(self).after_effect(effect, *state),
    {
        match effect {
            StorageEffect::Nothing => {},
            StorageEffect::Persist => self.save(state),
            StorageEffect::Clear => self.clear(),
        }
    }

    /// The state to start from: the stored snapshot, else the first of
    /// `predefined`, else a new game seeded from `config` at `now_ms`.
    pub fn load(&self, predefined: &Vec<GameState>, config: &UpgradesConfig, now_ms: u64) -> (r:
        GameState)
        ensures
            r == loaded_state(self.saved, predefined@, *config, now_ms),
    {
        match self.saved {
            Some(s) => s,
            None => if predefined.len() > 0 {
                predefined[0]
            } else {
                GameState::new(config, now_ms)
            },
        }
    }
}

/// Saving a state and loading it again gives back that same state, whatever
/// was stored before and whatever predefined states there are.
pub proof fn lemma_save_then_load(
    store: GameStorage,
    s: GameState,
    config: UpgradesConfig,
    predefined: Seq<GameState>,
    now_ms: u64,
    later_ms: u64,
)
    ensures
        ({
            let (saved, effect) = step(s, config, GameAction::Save, now_ms);
            let store2 = store.after_effect(effect, saved);
            &&& saved == s
            &&& loaded_state(store2.saved, predefined, config, later_ms) == s
        }),
{
}

/// A reset followed by a load, with no predefined states, gives the state of
/// a new game; and that is the state the reset itself left.
pub proof fn lemma_reset_then_load(
    store: GameStorage,
    s: GameState,
    config: UpgradesConfig,
    now_ms: u64,
)
    ensures
        ({
            let (after, effect) = step(s, config, GameAction::Reset, now_ms);
            let store2 = store.after_effect(effect, after);
            &&& loaded_state(store2.saved, Seq::empty(), config, now_ms) == fresh_state(
                config,
                now_ms,
            )
            &&& after == fresh_state(config, now_ms)
        }),
{
}

} // verus!
