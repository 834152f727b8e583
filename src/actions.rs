use vstd::prelude::*;
use crate::state::{fresh_state, GameParameter, GameState};
use crate::upgrades::{UpgradeKind, UpgradesConfig};

verus! {

/// What the player or the production timer asks of the game.
#[derive(Clone, Copy, Debug, PartialEq, Eq, Structural)]
pub enum GameAction {
    Click,
    /// Production over the given number of milliseconds.
    Tick(u64),
    BuyUpgrade(UpgradeKind),
    ToggleEasyMode,
    UpdateGameParameter(GameParameter),
    Reset,
    Save,
}

/// What the persistence adapter must do after an action.
#[derive(Clone, Copy, Debug, PartialEq, Eq, Structural)]
pub enum StorageEffect {
    Nothing,
    /// Store a snapshot of the new state.
    Persist,
    /// Remove the stored snapshot.
    Clear,
}

/// A change of a tunable factor made in the developer panel, in thousandths.
#[derive(Clone, Copy, Debug, PartialEq, Eq, Structural)]
pub enum DevPanelAction {
    UpdateBaseMultiplier(u32),
    UpdateCostScaling(u32),
    UpdateAutoClickerEfficiency(u32),
}

/// How the developer panel's chart scales its axes.
#[derive(Clone, Copy, Debug, PartialEq, Eq, Structural)]
pub enum ScaleType {
    Linear,
    Logarithmic,
}

impl ScaleType {
    /// The other scale.
    pub fn toggled(self) -> (r: ScaleType)
        ensures
            r != self,
    {
        match self {
            ScaleType::Linear => ScaleType::Logarithmic,
            ScaleType::Logarithmic => ScaleType::Linear,
        }
    }
}

pub open spec fn dev_panel_action_to_game_action(a: DevPanelAction) -> GameAction {
    match a {
        DevPanelAction::UpdateBaseMultiplier(v) => GameAction::UpdateGameParameter(
            GameParameter::BaseMultiplier(v),
        ),
        DevPanelAction::UpdateCostScaling(v) => GameAction::UpdateGameParameter(
            GameParameter::CostScaling(v),
        ),
        DevPanelAction::UpdateAutoClickerEfficiency(v) => GameAction::UpdateGameParameter(
            GameParameter::AutoClickerEfficiency(v),
        ),
    }
}

impl From<DevPanelAction> for GameAction {
    fn from(action: DevPanelAction) -> (r: GameAction)
        ensures
            r == dev_panel_action_to_game_action(action),
    {
        match action {
            DevPanelAction::UpdateBaseMultiplier(v) => GameAction::UpdateGameParameter(
                GameParameter::BaseMultiplier(v),
            ),
            DevPanelAction::UpdateCostScaling(v) => GameAction::UpdateGameParameter(
                GameParameter::CostScaling(v),
            ),
            DevPanelAction::UpdateAutoClickerEfficiency(v) => GameAction::UpdateGameParameter(
                GameParameter::AutoClickerEfficiency(v),
            ),
        }
    }
}

impl vstd::std_specs::convert::FromSpecImpl<DevPanelAction> for GameAction {
    open spec fn obeys_from_spec() -> bool {
        true
    }

    open spec fn from_spec(a: DevPanelAction) -> GameAction {
        dev_panel_action_to_game_action(a)
    }
}

/// One step of the game: the state after `action` and what the persistence
/// adapter must do. Only a reset and a save touch storage; no action fails.
pub open spec fn step(
    s: GameState,
    config: UpgradesConfig,
    action: GameAction,
    now_ms: u64,
) -> (GameState, StorageEffect) {
    match action {
        GameAction::Click => (s.clicked(), StorageEffect::Nothing),
        GameAction::Tick(ms) => (s.ticked(ms), StorageEffect::Nothing),
        GameAction::BuyUpgrade(kind) => (s.bought(config, kind), StorageEffect::Nothing),
        GameAction::ToggleEasyMode => (
            GameState { easy_mode: !s.easy_mode, ..s },
            StorageEffect::Nothing,
        ),
        GameAction::UpdateGameParameter(p) => (s.with_parameter(p), StorageEffect::Nothing),
        GameAction::Reset => (fresh_state(config, now_ms), StorageEffect::Clear),
        GameAction::Save => (s, StorageEffect::Persist),
    }
}

impl GameState {
    /// Applies one action to the state, with `now_ms` the current time, and
    /// returns what the persistence adapter must do.
    pub fn apply_action(&mut self, config: &UpgradesConfig, action: GameAction, now_ms: u64) -> (r:
        StorageEffect)
        ensures
            (*final(self), r) == step(*old(self), *config, action, now_ms),
    {
        match action {
            GameAction::Click => {
                self.increment_counter();
                StorageEffect::Nothing
            },
            GameAction::Tick(ms) => {
                self.tick(ms);
                StorageEffect::Nothing
            },
            GameAction::BuyUpgrade(kind) => {
                self.buy_upgrade(config, kind);
                StorageEffect::Nothing
            },
            GameAction::ToggleEasyMode => {
                self.toggle_easy_mode();
                StorageEffect::Nothing
            },
            GameAction::UpdateGameParameter(p) => {
                self.update_parameter(p);
                StorageEffect::Nothing
            },
            GameAction::Reset => {
                self.reset(config, now_ms);
                StorageEffect::Clear
            },
            GameAction::Save => StorageEffect::Persist,
        }
    }
}

} // verus!
