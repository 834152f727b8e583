//! Economy model and action reducer of an idle clicker game.
//!
//! Tunable factors are fixed-point numbers in thousandths (`1150` stands for
//! a factor of 1.15); production rates are kept exactly, in millionths of a
//! unit per second.
//!
//! Production accumulates across ticks: the fraction of a unit that a tick
//! leaves over is carried to the next, so slow rates lose nothing.
//! Projections are linear in time at the current production and do not
//! foresee purchases. In easy mode one purchase of either upgrade adds
//! `BULK_INCREMENT` levels for the cost of the current level.

pub mod actions;
pub mod digits;
pub mod state;
pub mod storage;
pub mod upgrades;

pub use actions::{DevPanelAction, GameAction, ScaleType, StorageEffect};
pub use state::{GameParameter, GameState, Upgrades, BULK_INCREMENT, MILLI, NANO};
pub use storage::GameStorage;
pub use upgrades::{UpgradeKind, UpgradeParameters, UpgradesConfig};
