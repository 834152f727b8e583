use idle_clicker::{
    DevPanelAction, GameAction, GameParameter, GameState, GameStorage, ScaleType, StorageEffect,
    UpgradeKind, UpgradeParameters, UpgradesConfig, BULK_INCREMENT,
};

fn config() -> UpgradesConfig {
    UpgradesConfig {
        auto_clicker: UpgradeParameters {
            base_cost: 200,
            cost_scaling: 1150,
            efficiency: Some(1000),
            multiplier: None,
        },
        click_multiplier: UpgradeParameters {
            base_cost: 100,
            cost_scaling: 1150,
            efficiency: None,
            multiplier: Some(1000),
        },
    }
}

fn fresh() -> GameState {
    GameState::new(&config(), 1_700_000_000_000)
}

#[test]
fn new_state_is_seeded_from_config() {
    let s = fresh();
    assert_eq!(s.counter, 0);
    assert_eq!(s.clicks_per_second, 0);
    assert_eq!(s.last_saved, 1_700_000_000_000);
    assert_eq!(s.upgrades.auto_clicker, 0);
    assert_eq!(s.upgrades.click_multiplier, 0);
    assert!(!s.easy_mode);
    assert_eq!(s.base_multiplier, 1000);
    assert_eq!(s.cost_scaling, 1150);
    assert_eq!(s.auto_clicker_efficiency, 1000);
    assert_eq!(s.carried_production, 0);
}

#[test]
fn missing_factors_default_to_one() {
    let mut c = config();
    c.click_multiplier.multiplier = None;
    c.auto_clicker.efficiency = None;
    c.click_multiplier.cost_scaling = 1300;
    let s = GameState::new(&c, 5);
    assert_eq!(s.base_multiplier, 1000);
    assert_eq!(s.auto_clicker_efficiency, 1000);
    assert_eq!(s.cost_scaling, 1300);
}

#[test]
fn cost_curve_values() {
    let p = UpgradeParameters { base_cost: 10, cost_scaling: 1150, efficiency: None, multiplier: None };
    let costs: Vec<u64> = (0..6).map(|n| p.cost_at(n)).collect();
    assert_eq!(costs, vec![10, 12, 13, 15, 17, 20]);
}

#[test]
fn cost_strictly_increases_with_level() {
    let p = UpgradeParameters { base_cost: 100, cost_scaling: 1150, efficiency: None, multiplier: None };
    for n in 0..40 {
        assert!(p.cost_at(n + 1) > p.cost_at(n), "level {}", n);
    }
}

#[test]
fn cost_stays_flat_without_growth() {
    let p = UpgradeParameters { base_cost: 50, cost_scaling: 1000, efficiency: None, multiplier: None };
    assert_eq!(p.cost_at(0), 50);
    assert_eq!(p.cost_at(25), 50);
}

#[test]
fn cost_is_capped_at_u64_max() {
    let p = UpgradeParameters { base_cost: u64::MAX, cost_scaling: 2000, efficiency: None, multiplier: None };
    assert_eq!(p.cost_at(0), u64::MAX);
    assert_eq!(p.cost_at(1), u64::MAX);
    assert_eq!(p.cost_at(7), u64::MAX);
}

#[test]
fn cost_at_high_levels() {
    let rising = UpgradeParameters { base_cost: 10, cost_scaling: 1150, efficiency: None, multiplier: None };
    assert_eq!(rising.cost_at(400), u64::MAX);
    let falling = UpgradeParameters { base_cost: 1000, cost_scaling: 500, efficiency: None, multiplier: None };
    assert_eq!(falling.cost_at(20), 0);
    let flat = UpgradeParameters { base_cost: 7, cost_scaling: 1000, efficiency: None, multiplier: None };
    assert_eq!(flat.cost_at(300), 7);
    assert_eq!(flat.cost_at(u32::MAX), 7);
    let free = UpgradeParameters { base_cost: 0, cost_scaling: 1500, efficiency: None, multiplier: None };
    assert_eq!(free.cost_at(u32::MAX), 0);
}

#[test]
fn cost_rounds_the_exact_price() {
    // 1.651^3 = 4.500...
    let p = UpgradeParameters { base_cost: 1, cost_scaling: 1651, efficiency: None, multiplier: None };
    assert_eq!(p.cost_at(3), 5);
    // 100 * 1.15^24 = 2862.5...
    let c = config();
    assert_eq!(c.click_multiplier.cost_at(24), 2863);
    // 200 * 1.15^38 = 40508.6...
    assert_eq!(c.auto_clicker.cost_at(38), 40509);
    // 1.5 rounds up, 2.25 down
    let half = UpgradeParameters { base_cost: 1, cost_scaling: 1500, efficiency: None, multiplier: None };
    assert_eq!(half.cost_at(1), 2);
    assert_eq!(half.cost_at(2), 2);
}

#[test]
fn cost_ties_when_growth_is_below_one_unit() {
    let p = UpgradeParameters { base_cost: 1, cost_scaling: 1001, efficiency: None, multiplier: None };
    assert_eq!(p.cost_at(0), 1);
    assert_eq!(p.cost_at(1), 1);
}

#[test]
fn upgrade_cost_by_kind() {
    let mut s = fresh();
    let c = config();
    assert_eq!(s.get_upgrade_cost(&c, UpgradeKind::AutoClicker), 200);
    assert_eq!(s.get_upgrade_cost(&c, UpgradeKind::ClickMultiplier), 100);
    s.upgrades.auto_clicker = 1;
    s.upgrades.click_multiplier = 2;
    assert_eq!(s.get_upgrade_cost(&c, UpgradeKind::AutoClicker), 230);
    // 100 * 1.15^2 = 132.25
    assert_eq!(s.get_upgrade_cost(&c, UpgradeKind::ClickMultiplier), 132);
}

#[test]
fn upgrade_cost_under_state_scaling() {
    let mut s = fresh();
    s.cost_scaling = 2000;
    assert_eq!(s.calculate_upgrade_cost(&config(), 0), 100);
    assert_eq!(s.calculate_upgrade_cost(&config(), 3), 800);
}

#[test]
fn click_once_from_zero() {
    let mut s = fresh();
    assert_eq!(s.counter, 0);
    assert_eq!(s.upgrades.auto_clicker, 0);
    s.increment_counter();
    assert_eq!(s.counter, 1);
}

#[test]
fn click_value_rounds_to_nearest() {
    let mut s = fresh();
    s.base_multiplier = 1250;
    assert_eq!(s.calculate_click_value(), 1);
    s.base_multiplier = 1500;
    assert_eq!(s.calculate_click_value(), 2);
    s.upgrades.click_multiplier = 1;
    assert_eq!(s.calculate_click_value(), 3);
}

#[test]
fn click_value_is_at_least_one() {
    let mut s = fresh();
    s.base_multiplier = 0;
    assert_eq!(s.calculate_click_value(), 1);
    s.base_multiplier = 400;
    assert_eq!(s.calculate_click_value(), 1);
}

#[test]
fn click_saturates_counter() {
    let mut s = fresh();
    s.counter = u64::MAX - 1;
    s.base_multiplier = 5000;
    s.increment_counter();
    assert_eq!(s.counter, u64::MAX);
}

#[test]
fn production_formula() {
    let mut s = fresh();
    assert_eq!(s.calculate_clicks_per_second(), 0);
    s.upgrades.auto_clicker = 2;
    s.upgrades.click_multiplier = 1;
    s.base_multiplier = 1500;
    s.auto_clicker_efficiency = 2000;
    // 2 * (1 + 1) * 1.5 * 2.0 = 12 units per second
    assert_eq!(s.calculate_clicks_per_second(), 12_000_000);
}

#[test]
fn production_at_largest_inputs() {
    let mut s = fresh();
    s.upgrades.auto_clicker = u32::MAX;
    s.upgrades.click_multiplier = u32::MAX;
    s.base_multiplier = u32::MAX;
    s.auto_clicker_efficiency = u32::MAX;
    let a = u32::MAX as u128;
    assert_eq!(s.calculate_clicks_per_second(), a * (a + 1) * a * a);
}

#[test]
fn buy_auto_clicker_with_exact_counter() {
    let mut s = fresh();
    s.counter = 200;
    let c = config();
    assert_eq!(s.get_upgrade_cost(&c, UpgradeKind::AutoClicker), 200);
    assert!(s.buy_upgrade(&c, UpgradeKind::AutoClicker));
    assert_eq!(s.counter, 0);
    assert_eq!(s.upgrades.auto_clicker, 1);
    let mut expected = fresh();
    expected.upgrades.auto_clicker = 1;
    assert_eq!(s, expected);
}

#[test]
fn unaffordable_purchase_is_a_no_op() {
    let mut s = fresh();
    s.counter = 5;
    let mut c = config();
    c.click_multiplier.base_cost = 10;
    let before = s;
    assert!(!s.buy_upgrade(&c, UpgradeKind::ClickMultiplier));
    assert_eq!(s, before);
    assert_eq!(s.counter, 5);
}

#[test]
fn purchase_never_overdraws() {
    let c = config();
    for counter in [0u64, 99, 100, 101, 199, 200, 1000] {
        for kind in [UpgradeKind::AutoClicker, UpgradeKind::ClickMultiplier] {
            let mut s = fresh();
            s.counter = counter;
            let cost = s.get_upgrade_cost(&c, kind);
            let before = s;
            if s.buy_upgrade(&c, kind) {
                assert!(counter >= cost);
                assert_eq!(s.counter, counter - cost);
            } else {
                assert_eq!(s, before);
            }
        }
    }
}

#[test]
fn easy_mode_buys_in_bulk() {
    let mut s = fresh();
    let c = config();
    s.toggle_easy_mode();
    assert!(s.easy_mode);
    assert_eq!(s.purchase_increment(), BULK_INCREMENT);
    s.counter = 300;
    assert!(s.buy_upgrade(&c, UpgradeKind::ClickMultiplier));
    assert_eq!(s.counter, 200);
    assert_eq!(s.upgrades.click_multiplier, 10);
    assert!(s.buy_upgrade(&c, UpgradeKind::AutoClicker));
    assert_eq!(s.counter, 0);
    assert_eq!(s.upgrades.auto_clicker, 10);
    s.toggle_easy_mode();
    assert_eq!(s.purchase_increment(), 1);
}

#[test]
fn purchase_past_the_largest_level_is_ignored() {
    let mut s = fresh();
    let mut c = config();
    c.auto_clicker.base_cost = 0;
    s.upgrades.auto_clicker = u32::MAX;
    s.counter = 10;
    let before = s;
    assert!(!s.buy_upgrade(&c, UpgradeKind::AutoClicker));
    assert_eq!(s, before);
}

#[test]
fn apply_upgrade_adds_levels() {
    let mut s = fresh();
    s.apply_upgrade(UpgradeKind::ClickMultiplier);
    assert_eq!(s.upgrades.click_multiplier, 1);
    assert_eq!(s.level(UpgradeKind::ClickMultiplier), 1);
    s.apply_upgrade(UpgradeKind::AutoClicker);
    assert_eq!(s.level(UpgradeKind::AutoClicker), 1);
    assert_eq!(s.counter, 0);
    assert_eq!(s.clicks_per_second, 0);
    // 1 * (1 + 1) * 1.0 * 1.0 units per second
    assert_eq!(s.calculate_clicks_per_second(), 2_000_000);
}

#[test]
fn tick_carries_fractions_of_a_unit() {
    let mut s = fresh();
    s.upgrades.auto_clicker = 1;
    s.base_multiplier = 500;
    s.tick(1000);
    assert_eq!(s.counter, 0);
    assert_eq!(s.carried_production, 500_000_000);
    s.tick(1000);
    assert_eq!(s.counter, 1);
    assert_eq!(s.carried_production, 0);
}

#[test]
fn many_short_ticks_lose_nothing() {
    let mut s = fresh();
    s.upgrades.auto_clicker = 3;
    s.auto_clicker_efficiency = 100;
    // 0.3 units per second, ticked every 50 ms for 100 seconds
    for _ in 0..2000 {
        s.tick(50);
    }
    assert_eq!(s.counter, 30);
    assert_eq!(s.carried_production, 0);
}

#[test]
fn tick_without_auto_clickers_does_nothing() {
    let mut s = fresh();
    s.counter = 7;
    let before = s;
    s.tick(60_000);
    assert_eq!(s, before);
}

#[test]
fn tick_saturates_counter() {
    let mut s = fresh();
    s.upgrades.auto_clicker = u32::MAX;
    s.upgrades.click_multiplier = u32::MAX;
    s.base_multiplier = u32::MAX;
    s.auto_clicker_efficiency = u32::MAX;
    s.tick(u64::MAX);
    assert_eq!(s.counter, u64::MAX);
    assert_eq!(s.carried_production, 0);
}

#[test]
fn time_to_reach_without_production_is_never() {
    let mut s = fresh();
    assert_eq!(s.time_to_reach_resources(100), None);
    s.counter = 500;
    assert_eq!(s.time_to_reach_resources(100), None);
}

#[test]
fn time_to_reach_values() {
    let mut s = fresh();
    s.upgrades.auto_clicker = 2;
    s.upgrades.click_multiplier = 1;
    s.base_multiplier = 1500;
    s.auto_clicker_efficiency = 2000;
    assert_eq!(s.time_to_reach_resources(30), Some(2500));
    assert_eq!(s.time_to_reach_resources(31), Some(2584));
    s.counter = 50;
    assert_eq!(s.time_to_reach_resources(50), Some(0));
    assert_eq!(s.time_to_reach_resources(26), Some(-2000));
    assert!(s.time_to_reach_resources(0).unwrap() <= 0);
}

#[test]
fn time_to_next_upgrade_values() {
    let mut s = fresh();
    let c = config();
    assert_eq!(s.time_to_next_upgrade(&c), None);
    s.upgrades.auto_clicker = 1;
    s.counter = 40;
    // next click multiplier costs 100 and production is 1 unit per second
    assert_eq!(s.time_to_next_upgrade(&c), Some(60_000));
}

#[test]
fn resources_at_time_values() {
    let mut s = fresh();
    s.counter = 5;
    assert_eq!(s.resources_at_time(3_600_000), 5);
    s.upgrades.auto_clicker = 2;
    s.upgrades.click_multiplier = 1;
    s.base_multiplier = 1500;
    s.auto_clicker_efficiency = 2000;
    assert_eq!(s.resources_at_time(10_000), 125);
    assert_eq!(s.resources_at_time(1_250), 20);
    s.base_multiplier = u32::MAX;
    s.auto_clicker_efficiency = u32::MAX;
    s.upgrades.auto_clicker = u32::MAX;
    assert_eq!(s.resources_at_time(u128::MAX), u64::MAX);
}

#[test]
fn update_parameters() {
    let mut s = fresh();
    s.upgrades.auto_clicker = 1;
    s.update_parameter(GameParameter::BaseMultiplier(2000));
    assert_eq!(s.base_multiplier, 2000);
    assert_eq!(s.clicks_per_second, 0);
    assert_eq!(s.calculate_clicks_per_second(), 2_000_000);
    s.update_parameter(GameParameter::CostScaling(1200));
    assert_eq!(s.cost_scaling, 1200);
    s.update_parameter(GameParameter::AutoClickerEfficiency(3000));
    assert_eq!(s.auto_clicker_efficiency, 3000);
    assert_eq!(s.clicks_per_second, 0);
    assert_eq!(s.calculate_clicks_per_second(), 6_000_000);
}

#[test]
fn config_records_parameters() {
    let mut c = config();
    c.apply_parameter(GameParameter::BaseMultiplier(2500));
    assert_eq!(c.click_multiplier.multiplier, Some(2500));
    c.apply_parameter(GameParameter::CostScaling(1300));
    assert_eq!(c.click_multiplier.cost_scaling, 1300);
    assert_eq!(c.auto_clicker.cost_scaling, 1150);
    c.apply_parameter(GameParameter::AutoClickerEfficiency(700));
    assert_eq!(c.auto_clicker.efficiency, Some(700));
    assert_eq!(c.parameters(UpgradeKind::AutoClicker), c.auto_clicker);
    assert_eq!(c.parameters(UpgradeKind::ClickMultiplier), c.click_multiplier);
}

#[test]
fn reset_gives_a_new_game() {
    let mut s = fresh();
    s.counter = 999;
    s.upgrades.auto_clicker = 4;
    s.easy_mode = true;
    s.reset(&config(), 42);
    assert_eq!(s, GameState::new(&config(), 42));
}

#[test]
fn reducer_actions() {
    let c = config();
    let mut s = fresh();
    assert_eq!(s.apply_action(&c, GameAction::Click, 0), StorageEffect::Nothing);
    assert_eq!(s.counter, 1);
    s.counter = 100;
    assert_eq!(s.apply_action(&c, GameAction::BuyUpgrade(UpgradeKind::ClickMultiplier), 0), StorageEffect::Nothing);
    assert_eq!(s.counter, 0);
    assert_eq!(s.upgrades.click_multiplier, 1);
    s.apply_action(&c, GameAction::ToggleEasyMode, 0);
    assert!(s.easy_mode);
    s.apply_action(&c, GameAction::UpdateGameParameter(GameParameter::BaseMultiplier(3000)), 0);
    assert_eq!(s.base_multiplier, 3000);
    s.upgrades.auto_clicker = 1;
    s.apply_action(&c, GameAction::Tick(1000), 0);
    // 1 * (1 + 1) * 3.0 * 1.0 per second
    assert_eq!(s.counter, 6);
    let before = s;
    assert_eq!(s.apply_action(&c, GameAction::Save, 0), StorageEffect::Persist);
    assert_eq!(s, before);
    assert_eq!(s.apply_action(&c, GameAction::Reset, 77), StorageEffect::Clear);
    assert_eq!(s, GameState::new(&c, 77));
}

#[test]
fn dev_panel_actions_become_parameter_updates() {
    assert_eq!(
        GameAction::from(DevPanelAction::UpdateBaseMultiplier(1500)),
        GameAction::UpdateGameParameter(GameParameter::BaseMultiplier(1500))
    );
    assert_eq!(
        GameAction::from(DevPanelAction::UpdateCostScaling(1200)),
        GameAction::UpdateGameParameter(GameParameter::CostScaling(1200))
    );
    assert_eq!(
        GameAction::from(DevPanelAction::UpdateAutoClickerEfficiency(900)),
        GameAction::UpdateGameParameter(GameParameter::AutoClickerEfficiency(900))
    );
}

#[test]
fn scale_type_toggles() {
    assert_eq!(ScaleType::Linear.toggled(), ScaleType::Logarithmic);
    assert_eq!(ScaleType::Logarithmic.toggled(), ScaleType::Linear);
}

#[test]
fn load_falls_back_in_order() {
    let c = config();
    let mut stored = fresh();
    stored.counter = 321;
    let mut predefined = fresh();
    predefined.counter = 55;
    let store = GameStorage::new(Some(stored));
    assert_eq!(store.load(&vec![predefined], &c, 9), stored);
    let empty = GameStorage::new(None);
    assert_eq!(empty.load(&vec![predefined, stored], &c, 9), predefined);
    assert_eq!(empty.load(&vec![], &c, 9), GameState::new(&c, 9));
}

#[test]
fn save_then_load_round_trip() {
    let c = config();
    let mut s = fresh();
    s.counter = 1234;
    s.upgrades.click_multiplier = 3;
    s.easy_mode = true;
    let mut store = GameStorage::new(None);
    let effect = s.apply_action(&c, GameAction::Save, 0);
    store.apply(effect, &s);
    let mut other = fresh();
    other.counter = 1;
    assert_eq!(store.load(&vec![other], &c, 99), s);
    store.save(&other);
    assert_eq!(store.load(&vec![], &c, 99), other);
}

#[test]
fn reset_then_load_gives_default() {
    let c = config();
    let mut s = fresh();
    s.counter = 80;
    let mut store = GameStorage::new(Some(s));
    let effect = s.apply_action(&c, GameAction::Reset, 500);
    store.apply(effect, &s);
    assert_eq!(store.saved, None);
    assert_eq!(store.load(&vec![], &c, 500), GameState::new(&c, 500));
    store.save(&s);
    store.clear();
    assert_eq!(store.load(&vec![], &c, 600), GameState::new(&c, 600));
}

#[test]
fn projection_meets_target_at_time_to_reach() {
    let mut s = fresh();
    s.upgrades.auto_clicker = 2;
    s.upgrades.click_multiplier = 1;
    s.base_multiplier = 1500;
    s.auto_clicker_efficiency = 2000;
    s.counter = 3;
    for target in [4u64, 31, 100, 12_345] {
        let t = s.time_to_reach_resources(target).unwrap();
        assert!(t > 0);
        assert!(s.resources_at_time(t as u128) >= target);
        assert!(s.resources_at_time((t - 1) as u128) < target);
    }
}

#[test]
fn purchases_and_tuning_leave_the_recorded_rate() {
    let c = config();
    let mut s = fresh();
    s.clicks_per_second = 7;
    s.counter = 1000;
    assert!(s.buy_upgrade(&c, UpgradeKind::AutoClicker));
    assert!(s.buy_upgrade(&c, UpgradeKind::ClickMultiplier));
    s.update_parameter(GameParameter::BaseMultiplier(2000));
    assert_eq!(s.clicks_per_second, 7);
}
