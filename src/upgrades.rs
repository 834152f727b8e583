use vstd::prelude::*;
use vstd::arithmetic::div_mod::{
    lemma_div_is_ordered, lemma_div_multiples_vanish_quotient, lemma_div_plus_one,
    lemma_fundamental_div_mod_converse_div,
};
use crate::digits::{
    digits_of, is_digits, lemma_power_positive, lemma_value_bound, lemma_value_push,
    lemma_value_split, power, scale_digits, value_of,
};

verus! {

/// The purchasable upgrades.
#[derive(Clone, Copy, Debug, PartialEq, Eq, Structural)]
pub enum UpgradeKind {
    AutoClicker,
    ClickMultiplier,
}

/// The static parameters of one upgrade.
#[derive(Clone, Copy, Debug, PartialEq, Eq, Structural)]
pub struct UpgradeParameters {
    /// Cost of the first level, in whole units.
    pub base_cost: u64,
    /// Growth factor of the cost per level, in thousandths.
    pub cost_scaling: u32,
    /// Production efficiency, in thousandths, where the upgrade has one.
    pub efficiency: Option<u32>,
    /// Click multiplier, in thousandths, where the upgrade has one.
    pub multiplier: Option<u32>,
}

/// The upgrade table: one entry per kind of upgrade.
#[derive(Clone, Copy, Debug, PartialEq, Eq, Structural)]
pub struct UpgradesConfig {
    pub auto_clicker: UpgradeParameters,
    pub click_multiplier: UpgradeParameters,
}

/// The cost of buying level `level`: `base_cost * (scaling / 1000)^level`
/// rounded to the nearest whole unit, halves up, and at most `u64::MAX`.
pub open spec fn cost_curve(base_cost: nat, scaling: nat, level: nat) -> nat {
    let p = power(1000, level);
    let c = (2 * base_cost * power(scaling, level) + p) / (2 * p);
    if c > u64::MAX {
        u64::MAX as nat
    } else {
        c
    }
}

/// Costs grow strictly from level `level` to the next wherever the exact
/// price grows there by at least one whole unit
/// (`base_cost * scaling^level * (scaling - 1000) >= 1000^(level + 1)`),
/// as long as the next cost is below its ceiling. Where the exact price grows
/// by less, two levels may round to the same cost (a base cost of 1 with a
/// growth factor of 1.001 costs 1 at levels 0 and 1).
pub proof fn lemma_cost_strictly_increasing(base_cost: nat, scaling: nat, level: nat)
    requires
        base_cost * power(scaling, level + 1) >= 1000 * (base_cost * power(scaling, level))
            + power(1000, level + 1),
        cost_curve(base_cost, scaling, level + 1) < u64::MAX,
    ensures
        cost_curve(base_cost, scaling, level + 1) > cost_curve(base_cost, scaling, level),
{
    let x: int = (base_cost * power(scaling, level)) as int;
    let x2: int = (base_cost * power(scaling, level + 1)) as int;
    let p: int = power(1000, level) as int;
    let p2: int = power(1000, level + 1) as int;
    lemma_power_positive(1000, level);
    assert(p2 == 1000 * p);
    assert(2 * base_cost * power(scaling, level) == 2 * x) by (nonlinear_arith)
        requires
            x == base_cost * power(scaling, level),
    ;
    assert(2 * base_cost * power(scaling, level + 1) == 2 * x2) by (nonlinear_arith)
        requires
            x2 == base_cost * power(scaling, level + 1),
    ;
    let a: int = 2 * x + 3 * p;
    assert(1000 * a <= 2 * x2 + p2);
    lemma_div_is_ordered(1000 * a, 2 * x2 + p2, 2 * p2);
    assert(2 * p2 == 1000 * (2 * p));
    lemma_div_multiples_vanish_quotient(1000, a, 2 * p);
    lemma_div_plus_one(2 * x + p, 2 * p);
    assert(2 * p + (2 * x + p) == a);
}

/// A factor of at least 1000 raised to `exp` is at least `1000^exp`.
proof fn lemma_power_at_least(scaling: nat, exp: nat)
    requires
        scaling >= 1000,
    ensures
        power(scaling, exp) >= power(1000, exp),
    decreases exp,
{
    if exp > 0 {
        lemma_power_at_least(scaling, (exp - 1) as nat);
        let a = power(scaling, (exp - 1) as nat);
        let c = power(1000, (exp - 1) as nat);
        assert(scaling * a >= 1000 * c) by (nonlinear_arith)
            requires
                scaling >= 1000,
                a >= c,
        ;
    }
}

/// Costs grow strictly at every level below the ceiling when the first
/// level already adds at least one whole unit to the price
/// (`base_cost * (scaling - 1000) >= 1000`).
pub proof fn lemma_cost_increasing_everywhere(base_cost: nat, scaling: nat, level: nat)
    requires
        scaling > 1000,
        base_cost * (scaling - 1000) >= 1000,
        cost_curve(base_cost, scaling, level + 1) < u64::MAX,
    ensures
        cost_curve(base_cost, scaling, level + 1) > cost_curve(base_cost, scaling, level),
{
    let x = power(scaling, level);
    let p = power(1000, level);
    lemma_power_at_least(scaling, level);
    assert(power(scaling, level + 1) == scaling * x);
    assert(power(1000, level + 1) == 1000 * p);
    assert(base_cost * (scaling * x) >= 1000 * (base_cost * x) + 1000 * p) by (nonlinear_arith)
        requires
            x >= p,
            scaling > 1000,
            base_cost * (scaling - 1000) >= 1000,
    ;
    lemma_cost_strictly_increasing(base_cost, scaling, level);
}

/// Rounding to the nearest whole, halves up, of a number of units written
/// as whole part `w` and a fraction whose leading base-1000 digit is `dig`.
proof fn lemma_round_half(w: nat, low: nat, dig: nat, q: nat)
    requires
        q > 0,
        low < q,
        dig < 1000,
    ensures
        (2 * (1000 * q * w + dig * q + low) + 1000 * q) / (2 * (1000 * q)) == w + (if dig
            >= 500 {
            1nat
        } else {
            0nat
        }),
{
    let h: int = if dig >= 500 {
        1
    } else {
        0
    };
    let p: int = (1000 * q) as int;
    let x: int = (2 * (1000 * q * w + dig * q + low) + 1000 * q) as int;
    let r: int = x - (w + h) * (2 * p);
    assert(r == 2 * (dig * q) + 2 * low + p - 2 * p * h) by (nonlinear_arith)
        requires
            r == x - (w + h) * (2 * p),
            x == 2 * (1000 * q * w + dig * q + low) + 1000 * q,
            p == 1000 * q,
    ;
    if dig >= 500 {
        assert(500 * q <= dig * q <= 999 * q) by (nonlinear_arith)
            requires
                500 <= dig < 1000,
                q > 0,
        ;
    } else {
        assert(dig * q <= 499 * q) by (nonlinear_arith)
            requires
                dig < 500,
                q > 0,
        ;
    }
    assert(0 <= r < 2 * p);
    lemma_fundamental_div_mod_converse_div(x, 2 * p, w + h, r);
}

/// `v`, or `2^64` where `v` is larger.
pub open spec fn capped(v: nat) -> nat {
    if v > 0x1_0000_0000_0000_0000 {
        0x1_0000_0000_0000_0000
    } else {
        v
    }
}

impl UpgradeParameters {
    /// The cost of buying level `level` of this upgrade. The price is scaled
    /// exactly, in base-1000 digits, so the time taken grows with the square
    /// of the level.
    pub fn cost_at(&self, level: u32) -> (r: u64)
        ensures
            r == cost_curve(self.base_cost as nat, self.cost_scaling as nat, level as nat),
    {
        let ghost b = self.base_cost as nat;
        let ghost s = self.cost_scaling as nat;
        if self.base_cost == 0 || self.cost_scaling == 1000 {
            // the price never moves from the base cost
            proof {
                let p = power(1000, level as nat) as int;
                lemma_power_positive(1000, level as nat);
                if b == 0 {
                    assert(2 * b * power(s, level as nat) == 0) by (nonlinear_arith)
                        requires
                            b == 0,
                    ;
                } else {
                    assert(power(s, level as nat) == power(1000, level as nat));
                }
                assert(2 * b * power(s, level as nat) + p == b * (2 * p) + p) by (nonlinear_arith)
                    requires
                        b == 0 || power(s, level as nat) == p,
                ;
                lemma_fundamental_div_mod_converse_div(
                    2 * b * power(s, level as nat) + p,
                    2 * p,
                    b as int,
                    p,
                );
            }
            return self.base_cost;
        }
        let mut d = digits_of(self.base_cost);
        let mut i: u32 = 0;
        assert(power(s, 0) == 1);
        assert(b * power(s, 0) == b) by (nonlinear_arith)
            requires
                power(s, 0) == 1,
        ;
        while i < level
            invariant
                i <= level,
                b == self.base_cost,
                s == self.cost_scaling,
                is_digits(d@),
                value_of(d@) == b * power(s, i as nat),
            decreases level - i,
        {
            proof {
                assert(power(s, (i + 1) as nat) == s * power(s, i as nat));
                assert(b * (s * power(s, i as nat)) == b * power(s, i as nat) * s) by (nonlinear_arith);
            }
            d = scale_digits(&d, self.cost_scaling);
            i = i + 1;
        }
        let ghost x = value_of(d@);
        let n = level as usize;
        while d.len() <= n
            invariant
                is_digits(d@),
                value_of(d@) == x,
            decreases n + 1 - d.len(),
        {
            proof {
                lemma_value_push(d@, 0);
            }
            d.push(0);
        }
        let ghost len = d.len() as int;
        let mut whole: u128 = 0;
        let mut j: usize = d.len();
        assert(d@.subrange(len, len) =~= Seq::<u32>::empty());
        assert(value_of(d@.subrange(len, len)) == 0);
        while j > n
            invariant
                n <= j <= d.len(),
                len == d.len(),
                is_digits(d@),
                value_of(d@) == x,
                whole == capped(value_of(d@.subrange(j as int, len))),
            decreases j,
        {
            j = j - 1;
            proof {
                let t = d@.subrange(j as int, len);
                assert(t.skip(1) =~= d@.subrange(j + 1, len));
                assert(t[0] == d[j as int]);
                assert(value_of(t) == d[j as int] + 1000 * value_of(d@.subrange(j + 1, len)));
            }
            let next = whole * 1000 + d[j] as u128;
            whole = if next > 0x1_0000_0000_0000_0000 {
                0x1_0000_0000_0000_0000
            } else {
                next
            };
        }
        let up: u128 = if n > 0 && d[n - 1] >= 500 {
            1
        } else {
            0
        };
        proof {
            let w = value_of(d@.skip(n as int));
            assert(d@.subrange(n as int, len) =~= d@.skip(n as int));
            let p = power(1000, n as nat);
            lemma_power_positive(1000, n as nat);
            lemma_value_split(d@, n as nat);
            let l = value_of(d@.take(n as int));
            assert(2 * b * power(s, n as nat) == 2 * x) by (nonlinear_arith)
                requires
                    x == b * power(s, n as nat),
            ;
            if n == 0 {
                assert(d@.take(0) =~= Seq::<u32>::empty());
                assert(l == 0);
                assert(p == 1);
                assert(x == w) by (nonlinear_arith)
                    requires
                        x == l + p * w,
                        l == 0,
                        p == 1,
                ;
                lemma_fundamental_div_mod_converse_div((2 * x + 1) as int, 2, x as int, 1);
            } else {
                let top = d@.take(n as int);
                lemma_value_split(top, (n - 1) as nat);
                assert(top.take(n - 1) =~= d@.take(n - 1));
                let last = top.skip(n - 1);
                assert(last.skip(1) =~= Seq::<u32>::empty());
                assert(last[0] == d[n - 1]);
                assert(value_of(last) == d[n - 1] + 1000 * value_of(last.skip(1)));
                let low = value_of(d@.take(n - 1));
                let q = power(1000, (n - 1) as nat);
                assert(is_digits(d@.take(n - 1)));
                lemma_value_bound(d@.take(n - 1));
                assert(p == 1000 * q);
                assert(x == 1000 * q * w + d[n - 1] * q + low) by (nonlinear_arith)
                    requires
                        x == l + p * w,
                        l == low + q * d[n - 1],
                        p == 1000 * q,
                ;
                lemma_round_half(w, low, d[n - 1] as nat, q);
            }
        }
        if whole + up > u64::MAX as u128 {
            u64::MAX
        } else {
            (whole + up) as u64
        }
    }
}

} // verus!
