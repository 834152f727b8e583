use vstd::prelude::*;
use crate::upgrades::{cost_curve, UpgradeKind, UpgradeParameters, UpgradesConfig};
use vstd::arithmetic::div_mod::{
    lemma_div_is_ordered, lemma_div_multiples_vanish, lemma_fundamental_div_mod,
    lemma_fundamental_div_mod_converse_div,
};

verus! {

/// Fixed-point unit of the tunable factors: thousandths.
pub const MILLI: u32 = 1000;

/// Levels added by one purchase in easy mode.
pub const BULK_INCREMENT: u32 = 10;

/// Billionths of a unit per whole unit: the unit of the production carried
/// from one tick to the next.
pub const NANO: u64 = 1_000_000_000;

/// Levels owned of each upgrade.
#[derive(Clone, Copy, Debug, Default, PartialEq, Eq, Structural)]
pub struct Upgrades {
    pub auto_clicker: u32,
    pub click_multiplier: u32,
}

/// The economy state of one game.
#[derive(Clone, Copy, Debug, PartialEq, Eq, Structural)]
pub struct GameState {
    /// Accumulated resource, in whole units.
    pub counter: u64,
    /// Production rate recorded with the state, in whole units per second.
    /// No action changes it: `calculate_clicks_per_second` gives the rate
    /// that the levels and factors imply.
    pub clicks_per_second: u64,
    /// When the state was created, in milliseconds since the epoch.
    pub last_saved: u64,
    pub upgrades: Upgrades,
    /// In easy mode a purchase adds `BULK_INCREMENT` levels instead of one.
    pub easy_mode: bool,
    /// Click multiplier, in thousandths.
    pub base_multiplier: u32,
    /// Growth factor of the click multiplier's cost, in thousandths.
    pub cost_scaling: u32,
    /// Auto-clicker efficiency, in thousandths.
    pub auto_clicker_efficiency: u32,
    /// Production not yet counted, in billionths of a unit; below `NANO`
    /// in every state that ticks produce.
    pub carried_production: u64,
}

/// A tunable factor of the economy, with its new value in thousandths.
#[derive(Clone, Copy, Debug, PartialEq, Eq, Structural)]
pub enum GameParameter {
    BaseMultiplier(u32),
    CostScaling(u32),
    AutoClickerEfficiency(u32),
}

impl UpgradesConfig {
    pub open spec fn parameters_spec(&self, kind: UpgradeKind) -> UpgradeParameters {
        match kind {
            UpgradeKind::AutoClicker => self.auto_clicker,
            UpgradeKind::ClickMultiplier => self.click_multiplier,
        }
    }

    /// The entry of the table for `kind`.
    pub fn parameters(&self, kind: UpgradeKind) -> (r: UpgradeParameters)
        ensures
            r == self.parameters_spec(kind),
    {
        match kind {
            UpgradeKind::AutoClicker => self.auto_clicker,
            UpgradeKind::ClickMultiplier => self.click_multiplier,
        }
    }

    pub open spec fn with_parameter(self, p: GameParameter) -> UpgradesConfig {
        match p {
            GameParameter::BaseMultiplier(v) => UpgradesConfig {
                click_multiplier: UpgradeParameters { multiplier: Some(v), ..self.click_multiplier },
                ..self
            },
            GameParameter::CostScaling(v) => UpgradesConfig {
                click_multiplier: UpgradeParameters { cost_scaling: v, ..self.click_multiplier },
                ..self
            },
            GameParameter::AutoClickerEfficiency(v) => UpgradesConfig {
                auto_clicker: UpgradeParameters { efficiency: Some(v), ..self.auto_clicker },
                ..self
            },
        }
    }

    /// Records a tuned factor in the table, where the next game will be
    /// seeded from: the click multiplier and its cost growth go to the click
    /// multiplier's entry, the efficiency to the auto-clicker's.
    pub fn apply_parameter(&mut self, p: GameParameter)
        ensures
            *final(self) == old(self).with_parameter(p),
    {
        match p {
            GameParameter::BaseMultiplier(v) => {
                self.click_multiplier.multiplier = Some(v);
            },
            GameParameter::CostScaling(v) => {
                self.click_multiplier.cost_scaling = v;
            },
            GameParameter::AutoClickerEfficiency(v) => {
                self.auto_clicker.efficiency = Some(v);
            },
        }
    }
}

/// The state of a new game, seeded from the upgrade table.
pub open spec fn fresh_state(config: UpgradesConfig, now_ms: u64) -> GameState {
    GameState {
        counter: 0,
        clicks_per_second: 0,
        last_saved: now_ms,
        upgrades: Upgrades { auto_clicker: 0, click_multiplier: 0 },
        easy_mode: false,
        base_multiplier: match config.click_multiplier.multiplier {
            Some(m) => m,
            None => MILLI,
        },
        cost_scaling: config.click_multiplier.cost_scaling,
        auto_clicker_efficiency: match config.auto_clicker.efficiency {
            Some(e) => e,
            None => MILLI,
        },
        carried_production: 0,
    }
}

impl GameState {
    pub open spec fn level_spec(&self, kind: UpgradeKind) -> u32 {
        match kind {
            UpgradeKind::AutoClicker => self.upgrades.auto_clicker,
            UpgradeKind::ClickMultiplier => self.upgrades.click_multiplier,
        }
    }

    /// Production per second, in millionths of a unit:
    /// auto-clickers × (1 + multiplier level) × base multiplier × efficiency.
    pub open spec fn production_spec(&self) -> nat {
        self.upgrades.auto_clicker as nat * (1 + self.upgrades.click_multiplier as nat)
            * (self.base_multiplier as nat * self.auto_clicker_efficiency as nat)
    }

    /// The value of one manual click: (1 + multiplier level) × base
    /// multiplier, rounded to the nearest unit, and never less than one.
    pub open spec fn click_value_spec(&self) -> nat {
        let v = ((1 + self.upgrades.click_multiplier as nat) * self.base_multiplier as nat + 500)
            / 1000;
        if v == 0 {
            1
        } else {
            v
        }
    }

    /// Adds `amount` to the counter, stopping at `u64::MAX`.
    pub open spec fn saturating_counter(&self, amount: nat) -> u64 {
        if self.counter + amount > u64::MAX {
            u64::MAX
        } else {
            (self.counter + amount) as u64
        }
    }

    pub open spec fn clicked(self) -> GameState {
        GameState { counter: self.saturating_counter(self.click_value_spec()), ..self }
    }

    /// The state after `elapsed_ms` milliseconds of production: the
    /// production of that span is added to the carried fraction, whole units
    /// move to the counter and the rest is carried on. Once the counter is
    /// full it stays at `u64::MAX` and nothing is carried. Without an
    /// auto-clicker nothing happens.
    pub open spec fn ticked(self, elapsed_ms: u64) -> GameState {
        let total = (self.carried_production + self.production_spec() * elapsed_ms) as nat;
        let whole = total / (NANO as nat);
        if self.upgrades.auto_clicker == 0 {
            self
        } else if self.counter + whole >= u64::MAX {
            GameState { counter: u64::MAX, carried_production: 0, ..self }
        } else {
            GameState {
                counter: (self.counter + whole) as u64,
                carried_production: (total % (NANO as nat)) as u64,
                ..self
            }
        }
    }

    /// Levels added by one purchase.
    pub open spec fn increment_spec(&self) -> u32 {
        if self.easy_mode {
            BULK_INCREMENT
        } else {
            1
        }
    }

    pub open spec fn cost_spec(&self, config: UpgradesConfig, kind: UpgradeKind) -> nat {
        let p = config.parameters_spec(kind);
        cost_curve(p.base_cost as nat, p.cost_scaling as nat, self.level_spec(kind) as nat)
    }

    /// A purchase goes through when the counter covers the cost of the
    /// current level and the new level still fits a `u32`.
    pub open spec fn can_buy(&self, config: UpgradesConfig, kind: UpgradeKind) -> bool {
        &&& self.counter >= self.cost_spec(config, kind)
        &&& self.level_spec(kind) + self.increment_spec() <= u32::MAX
    }

    pub open spec fn upgraded(self, kind: UpgradeKind) -> GameState {
        let n = (self.level_spec(kind) + self.increment_spec()) as u32;
        match kind {
            UpgradeKind::AutoClicker => GameState {
                upgrades: Upgrades { auto_clicker: n, ..self.upgrades },
                ..self
            },
            UpgradeKind::ClickMultiplier => GameState {
                upgrades: Upgrades { click_multiplier: n, ..self.upgrades },
                ..self
            },
        }
    }

    /// The state after trying to buy one purchase of `kind`: the cost is
    /// paid and the levels added, or, where the purchase cannot go through,
    /// nothing changes.
    pub open spec fn bought(self, config: UpgradesConfig, kind: UpgradeKind) -> GameState {
        if self.can_buy(config, kind) {
            GameState {
                counter: (self.counter - self.cost_spec(config, kind)) as u64,
                ..self
            }.upgraded(kind)
        } else {
            self
        }
    }

    pub open spec fn with_parameter(self, p: GameParameter) -> GameState {
        match p {
            GameParameter::BaseMultiplier(v) => GameState { base_multiplier: v, ..self },
            GameParameter::CostScaling(v) => GameState { cost_scaling: v, ..self },
            GameParameter::AutoClickerEfficiency(v) => GameState {
                auto_clicker_efficiency: v,
                ..self
            },
        }
    }

    /// Milliseconds until the counter reaches `target` at the current
    /// production, rounded up; `None` (never) when nothing is produced.
    /// Zero or negative when the target is already met.
    pub open spec fn time_to_reach_spec(&self, target: u64) -> Option<int> {
        let p = self.production_spec();
        if p == 0 {
            None
        } else if target >= self.counter {
            let n = ((target - self.counter) * 1_000_000_000) as nat;
            Some((n / p) as int + if n % p == 0 { 0int } else { 1int })
        } else {
            Some(-((((self.counter - target) * 1_000_000_000) as nat / p) as int))
        }
    }

    /// Resources after `ms` more milliseconds at the current production,
    /// rounded down, at most `u64::MAX`.
    pub open spec fn resources_at_time_spec(&self, ms: nat) -> nat {
        self.saturating_counter((self.production_spec() * ms) / 1_000_000_000) as nat
    }
}

/// A quantity beyond `u128` holds at least `u64::MAX` whole units of any
/// unit up to a billionth.
proof fn lemma_quotient_of_overflow(x: int, d: int)
    requires
        x > u128::MAX,
        0 < d <= 1_000_000_000,
    ensures
        x / d >= u64::MAX,
{
    lemma_div_multiples_vanish(u64::MAX as int, d);
    assert(d * (u64::MAX as int) <= x) by (nonlinear_arith)
        requires
            x > u128::MAX,
            0 < d <= 1_000_000_000,
    ;
    lemma_div_is_ordered(d * (u64::MAX as int), x, d);
}

impl GameState {
    /// A new game seeded from the upgrade table: nothing owned, nothing
    /// counted, created at `now_ms`.
    pub fn new(config: &UpgradesConfig, now_ms: u64) -> (r: GameState)
        ensures
            r == fresh_state(*config, now_ms),
    {
        GameState {
            counter: 0,
            clicks_per_second: 0,
            last_saved: now_ms,
            upgrades: Upgrades { auto_clicker: 0, click_multiplier: 0 },
            easy_mode: false,
            base_multiplier: match config.click_multiplier.multiplier {
                Some(m) => m,
                None => MILLI,
            },
            cost_scaling: config.click_multiplier.cost_scaling,
            auto_clicker_efficiency: match config.auto_clicker.efficiency {
                Some(e) => e,
                None => MILLI,
            },
            carried_production: 0,
        }
    }

    /// Replaces the state with a new game.
    pub fn reset(&mut self, config: &UpgradesConfig, now_ms: u64)
        ensures
            *final(self) == fresh_state(*config, now_ms),
    {
        *self = GameState::new(config, now_ms);
    }

    /// Levels owned of `kind`.
    pub fn level(&self, kind: UpgradeKind) -> (r: u32)
        ensures
            r == self.level_spec(kind),
    {
        match kind {
            UpgradeKind::AutoClicker => self.upgrades.auto_clicker,
            UpgradeKind::ClickMultiplier => self.upgrades.click_multiplier,
        }
    }

    /// Production per second, in millionths of a unit; zero when no
    /// auto-clicker is owned.
    pub fn calculate_clicks_per_second(&self) -> (r: u128)
        ensures
            r == self.production_spec(),
            self.upgrades.auto_clicker == 0 ==> r == 0,
    {
        let owned = self.upgrades.auto_clicker as u128;
        let multiplier = 1 + self.upgrades.click_multiplier as u128;
        let base = self.base_multiplier as u128;
        let efficiency = self.auto_clicker_efficiency as u128;
        assert(owned * multiplier <= 0xffff_ffff_ffff_ffff) by (nonlinear_arith)
            requires
                owned <= 0xffff_ffff,
                multiplier <= 0x1_0000_0000,
        ;
        assert(base * efficiency <= 0xffff_ffff_ffff_ffff) by (nonlinear_arith)
            requires
                base <= 0xffff_ffff,
                efficiency <= 0xffff_ffff,
        ;
        let units = owned * multiplier;
        let factors = base * efficiency;
        assert(units * factors <= u128::MAX) by (nonlinear_arith)
            requires
                units <= 0xffff_ffff_ffff_ffff,
                factors <= 0xffff_ffff_ffff_ffff,
        ;
        assert(owned == 0 ==> units * factors == 0) by (nonlinear_arith)
            requires
                units == owned * multiplier,
        ;
        units * factors
    }

    /// The value of one manual click, at least one unit.
    pub fn calculate_click_value(&self) -> (r: u64)
        ensures
            r == self.click_value_spec(),
            r >= 1,
    {
        let multiplier = 1 + self.upgrades.click_multiplier as u128;
        assert(multiplier * (self.base_multiplier as u128) <= 0xffff_ffff_0000_0000) by (nonlinear_arith)
            requires
                multiplier <= 0x1_0000_0000,
                self.base_multiplier <= 0xffff_ffff,
        ;
        let v = (multiplier * self.base_multiplier as u128 + 500) / 1000;
        if v == 0 {
            1
        } else {
            v as u64
        }
    }

    fn add_to_counter(&mut self, amount: u64)
        ensures
            *final(self) == (GameState {
                counter: old(self).saturating_counter(amount as nat),
                ..*old(self)
            }),
    {
        self.counter = self.counter.saturating_add(amount);
    }

    /// One manual click: the click value is added to the counter, which
    /// stops at `u64::MAX`.
    pub fn increment_counter(&mut self)
        ensures
            *final(self) == old(self).clicked(),
    {
        let v = self.calculate_click_value();
        self.add_to_counter(v);
    }

    /// Production over `elapsed_ms` milliseconds, with the fraction of a
    /// unit that is left carried on to the next tick.
    pub fn tick(&mut self, elapsed_ms: u64)
        ensures
            *final(self) == old(self).ticked(elapsed_ms),
            old(self).upgrades.auto_clicker > 0 ==> final(self).carried_production < NANO,
    {
        if self.upgrades.auto_clicker == 0 {
            return;
        }
        let production = self.calculate_clicks_per_second();
        let total = match production.checked_mul(elapsed_ms as u128) {
            Some(gain) => gain.checked_add(self.carried_production as u128),
            None => None,
        };
        match total {
            Some(total) => {
                let whole = total / (NANO as u128);
                if whole >= (u64::MAX - self.counter) as u128 {
                    self.counter = u64::MAX;
                    self.carried_production = 0;
                } else {
                    self.counter = self.counter + whole as u64;
                    self.carried_production = (total % (NANO as u128)) as u64;
                }
            },
            None => {
                proof {
                    let t = self.carried_production + production * elapsed_ms;
                    lemma_quotient_of_overflow(t, NANO as int);
                }
                self.counter = u64::MAX;
                self.carried_production = 0;
            },
        }
    }

    /// Levels that one purchase adds.
    pub fn purchase_increment(&self) -> (r: u32)
        ensures
            r == self.increment_spec(),
    {
        if self.easy_mode {
            BULK_INCREMENT
        } else {
            1
        }
    }

    /// The cost of the next purchase of `kind`.
    pub fn get_upgrade_cost(&self, config: &UpgradesConfig, kind: UpgradeKind) -> (r: u64)
        ensures
            r == self.cost_spec(*config, kind),
    {
        config.parameters(kind).cost_at(self.level(kind))
    }

    /// The cost of level `level` of the click multiplier under the state's
    /// own cost growth.
    pub fn calculate_upgrade_cost(&self, config: &UpgradesConfig, level: u32) -> (r: u64)
        ensures
            r == cost_curve(
                config.click_multiplier.base_cost as nat,
                self.cost_scaling as nat,
                level as nat,
            ),
    {
        let p = UpgradeParameters { cost_scaling: self.cost_scaling, ..config.click_multiplier };
        p.cost_at(level)
    }

    /// Adds one purchase's levels of `kind`.
    pub fn apply_upgrade(&mut self, kind: UpgradeKind)
        requires
            old(self).level_spec(kind) + old(self).increment_spec() <= u32::MAX,
        ensures
            *final(self) == old(self).upgraded(kind),
    {
        let n = self.purchase_increment();
        match kind {
            UpgradeKind::AutoClicker => {
                self.upgrades.auto_clicker = self.upgrades.auto_clicker + n;
            },
            UpgradeKind::ClickMultiplier => {
                self.upgrades.click_multiplier = self.upgrades.click_multiplier + n;
            },
        }
    }

    /// Buys one purchase of `kind` where the counter covers its cost;
    /// otherwise nothing changes. Returns whether the purchase went through.
    pub fn buy_upgrade(&mut self, config: &UpgradesConfig, kind: UpgradeKind) -> (r: bool)
        ensures
            r == old(self).can_buy(*config, kind),
            *final(self) == old(self).bought(*config, kind),
    {
        let level = self.level(kind);
        let n = self.purchase_increment();
        if level > u32::MAX - n {
            return false;
        }
        let cost = self.get_upgrade_cost(config, kind);
        if self.counter >= cost {
            self.counter = self.counter - cost;
            self.apply_upgrade(kind);
            true
        } else {
            false
        }
    }

    /// Overwrites one tunable factor.
    pub fn update_parameter(&mut self, p: GameParameter)
        ensures
            *final(self) == old(self).with_parameter(p),
    {
        match p {
            GameParameter::BaseMultiplier(v) => {
                self.base_multiplier = v;
            },
            GameParameter::CostScaling(v) => {
                self.cost_scaling = v;
            },
            GameParameter::AutoClickerEfficiency(v) => {
                self.auto_clicker_efficiency = v;
            },
        }
    }

    /// Switches easy mode on or off.
    pub fn toggle_easy_mode(&mut self)
        ensures
            *final(self) == (GameState { easy_mode: !old(self).easy_mode, ..*old(self) }),
    {
        self.easy_mode = !self.easy_mode;
    }

    /// Milliseconds until the counter reaches `target`, rounded up: `None`
    /// when nothing is produced, zero or less when the target is met.
    pub fn time_to_reach_resources(&self, target: u64) -> (r: Option<i128>)
        ensures
            r matches Some(t) ==> self.time_to_reach_spec(target) == Some(t as int),
            r is None <==> self.time_to_reach_spec(target) is None,
    {
        let p = self.calculate_clicks_per_second();
        if p == 0 {
            None
        } else if target >= self.counter {
            let n = (target - self.counter) as u128 * 1_000_000_000;
            let q = n / p;
            assert(q <= n);
            Some(if n % p == 0 {
                q as i128
            } else {
                q as i128 + 1
            })
        } else {
            let n = (self.counter - target) as u128 * 1_000_000_000;
            let q = n / p;
            assert(q <= n);
            Some(-(q as i128))
        }
    }

    /// Milliseconds until the next click multiplier can be paid for.
    pub fn time_to_next_upgrade(&self, config: &UpgradesConfig) -> (r: Option<i128>)
        ensures
            ({
                let cost = cost_curve(
                    config.click_multiplier.base_cost as nat,
                    self.cost_scaling as nat,
                    self.upgrades.click_multiplier as nat,
                );
                &&& r is None <==> self.time_to_reach_spec(cost as u64) is None
                &&& r matches Some(t) ==> self.time_to_reach_spec(cost as u64) == Some(t as int)
            }),
    {
        let cost = self.calculate_upgrade_cost(config, self.upgrades.click_multiplier);
        self.time_to_reach_resources(cost)
    }

    /// Resources after `ms` more milliseconds at the current production,
    /// without any purchase on the way.
    pub fn resources_at_time(&self, ms: u128) -> (r: u64)
        ensures
            r == self.resources_at_time_spec(ms as nat),
    {
        let production = self.calculate_clicks_per_second();
        match production.checked_mul(ms) {
            Some(total) => {
                let whole = total / 1_000_000_000;
                if whole > (u64::MAX - self.counter) as u128 {
                    u64::MAX
                } else {
                    self.counter + whole as u64
                }
            },
            None => {
                proof {
                    lemma_quotient_of_overflow(production * ms, 1_000_000_000);
                }
                u64::MAX
            },
        }
    }
}

/// A purchase never spends more than the counter holds: either the cost is
/// taken from a counter that covered it, or nothing changes.
pub proof fn lemma_buy_never_overdraws(s: GameState, config: UpgradesConfig, kind: UpgradeKind)
    ensures
        ({
            let after = s.bought(config, kind);
            let cost = s.cost_spec(config, kind);
            ||| (s.counter >= cost && after.counter == s.counter - cost)
            ||| after == s
        }),
{
}

/// Without production the target is never reached (`None`); with production,
/// a target the counter already meets takes no time (zero or less).
pub proof fn lemma_time_to_reach_bounds(s: GameState, target: u64)
    ensures
        s.production_spec() == 0 ==> s.time_to_reach_spec(target) is None,
        s.production_spec() > 0 && target <= s.counter ==> (s.time_to_reach_spec(target) matches Some(t) && t <= 0),
{
    let p = s.production_spec();
    if p > 0 && target == s.counter {
        assert(0nat / p == 0 && 0nat % p == 0) by (nonlinear_arith)
            requires
                p > 0,
        ;
    }
}

/// At the time `time_to_reach_resources` gives for a target above the
/// counter, the linear projection has reached the target, and one
/// millisecond earlier it had not.
pub proof fn lemma_projection_meets_target(s: GameState, target: u64)
    requires
        s.production_spec() > 0,
        target > s.counter,
    ensures
        s.time_to_reach_spec(target) matches Some(t) && t > 0
            && s.resources_at_time_spec(t as nat) >= target
            && s.resources_at_time_spec((t - 1) as nat) < target,
{
    let p = s.production_spec() as int;
    let gap: int = target - s.counter;
    let n: int = gap * 1_000_000_000;
    let q = n / p;
    let m = n % p;
    lemma_fundamental_div_mod(n, p);
    let t: int = q + if m == 0 {
        0int
    } else {
        1int
    };
    assert(s.time_to_reach_spec(target) == Some(t));
    assert(q >= 0 && m >= 0 && m < p) by (nonlinear_arith)
        requires
            n == p * q + m,
            n > 0,
            p > 0,
            m == n % p,
            q == n / p,
    ;
    assert(t > 0) by (nonlinear_arith)
        requires
            n == p * q + m,
            n > 0,
            q >= 0,
            t == q + if m == 0 {
                0int
            } else {
                1int
            },
    ;
    assert(p * t >= n && p * (t - 1) < n) by (nonlinear_arith)
        requires
            n == p * q + m,
            0 <= m < p,
            t == q + if m == 0 {
                0int
            } else {
                1int
            },
    ;
    lemma_fundamental_div_mod_converse_div(n, 1_000_000_000, gap, 0);
    lemma_div_is_ordered(n, p * t, 1_000_000_000);
    lemma_div_is_ordered(p * (t - 1), n - 1, 1_000_000_000);
    lemma_fundamental_div_mod_converse_div(n - 1, 1_000_000_000, gap - 1, 999_999_999);
    assert(p * t == s.production_spec() * (t as nat));
    assert(p * (t - 1) == s.production_spec() * ((t - 1) as nat));
}

} // verus!
