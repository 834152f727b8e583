//! Unbounded natural numbers as little-endian digits in base 1000, enough
//! to scale a price by a factor in thousandths any number of times exactly.

use vstd::prelude::*;

verus! {

/// `base` raised to `exp`.
pub open spec fn power(base: nat, exp: nat) -> nat
    decreases exp,
{
    if exp == 0 {
        1
    } else {
        base * power(base, (exp - 1) as nat)
    }
}

/// The number that little-endian base-1000 digits stand for.
pub open spec fn value_of(d: Seq<u32>) -> nat
    decreases d.len(),
{
    if d.len() == 0 {
        0
    } else {
        (d[0] + 1000 * value_of(d.skip(1))) as nat
    }
}

/// Every entry is a base-1000 digit.
pub open spec fn is_digits(d: Seq<u32>) -> bool {
    forall|i: int| 0 <= i < d.len() ==> d[i] < 1000
}

pub proof fn lemma_power_positive(base: nat, exp: nat)
    requires
        base > 0,
    ensures
        power(base, exp) > 0,
    decreases exp,
{
    if exp > 0 {
        lemma_power_positive(base, (exp - 1) as nat);
        assert(base * power(base, (exp - 1) as nat) > 0) by (nonlinear_arith)
            requires
                base > 0,
                power(base, (exp - 1) as nat) > 0,
        ;
    }
}

/// A digit appended at the top counts at its place value.
pub proof fn lemma_value_push(d: Seq<u32>, x: u32)
    ensures
        value_of(d.push(x)) == value_of(d) + x * power(1000, d.len()),
    decreases d.len(),
{
    if d.len() == 0 {
        assert(d.push(x).skip(1) =~= Seq::<u32>::empty());
        assert(value_of(d.push(x).skip(1)) == 0);
        assert(power(1000, 0) == 1);
    } else {
        assert(d.push(x).skip(1) =~= d.skip(1).push(x));
        lemma_value_push(d.skip(1), x);
        let p = power(1000, d.skip(1).len());
        assert(power(1000, d.len()) == 1000 * p);
        assert(1000 * (value_of(d.skip(1)) + x * p) == 1000 * value_of(d.skip(1)) + x * (1000
            * p)) by (nonlinear_arith);
    }
}

/// The low `n` digits and the digits above them.
pub proof fn lemma_value_split(d: Seq<u32>, n: nat)
    requires
        n <= d.len(),
    ensures
        value_of(d) == value_of(d.take(n as int)) + power(1000, n) * value_of(d.skip(n as int)),
    decreases n,
{
    if n == 0 {
        assert(d.take(0) =~= Seq::<u32>::empty());
        assert(d.skip(0) =~= d);
        assert(value_of(d.take(0)) == 0 && power(1000, 0) == 1);
    } else {
        let t = d.skip(1);
        lemma_value_split(t, (n - 1) as nat);
        assert(d.take(n as int).skip(1) =~= t.take(n - 1));
        assert(t.skip(n - 1) =~= d.skip(n as int));
        let a = value_of(t.take(n - 1));
        let b = value_of(d.skip(n as int));
        let p = power(1000, (n - 1) as nat);
        assert(power(1000, n) == 1000 * p);
        assert(d.take(n as int)[0] == d[0]);
        assert(value_of(d.take(n as int)) == d[0] + 1000 * a);
        assert(value_of(d) == d[0] + 1000 * value_of(t));
        assert(1000 * (a + p * b) == 1000 * a + (1000 * p) * b) by (nonlinear_arith);
    }
}

/// Digits stand for less than the next power of the radix.
pub proof fn lemma_value_bound(d: Seq<u32>)
    requires
        is_digits(d),
    ensures
        value_of(d) < power(1000, d.len()),
    decreases d.len(),
{
    if d.len() > 0 {
        let t = d.skip(1);
        assert(is_digits(t));
        lemma_value_bound(t);
        let p = power(1000, t.len());
        assert(d[0] + 1000 * value_of(t) < 1000 * p) by (nonlinear_arith)
            requires
                d[0] < 1000,
                value_of(t) < p,
        ;
    }
}

/// The digits of `x`.
pub fn digits_of(x: u64) -> (r: Vec<u32>)
    ensures
        is_digits(r@),
        value_of(r@) == x,
{
    let mut r: Vec<u32> = Vec::new();
    let mut rest: u64 = x;
    assert(r@ =~= Seq::<u32>::empty() && value_of(r@) == 0 && power(1000, 0) == 1);
    assert(r.len() == 0);
    assert(power(1000, r.len() as nat) == 1);
    assert(rest * power(1000, r.len() as nat) == x) by (nonlinear_arith)
        requires
            power(1000, r.len() as nat) == 1,
            rest == x,
    ;
    while rest > 0
        invariant
            is_digits(r@),
            value_of(r@) + rest * power(1000, r.len() as nat) == x,
        decreases rest,
    {
        let digit = (rest % 1000) as u32;
        proof {
            lemma_value_push(r@, digit);
            let p = power(1000, r.len() as nat);
            assert(digit * p + (rest / 1000) * (1000 * p) == rest * p) by (nonlinear_arith)
                requires
                    digit == rest % 1000,
            ;
        }
        r.push(digit);
        rest = rest / 1000;
    }
    r
}

/// The digits of `value_of(d) * m`.
pub fn scale_digits(d: &Vec<u32>, m: u32) -> (r: Vec<u32>)
    requires
        is_digits(d@),
    ensures
        is_digits(r@),
        value_of(r@) == value_of(d@) * m,
{
    let mut r: Vec<u32> = Vec::new();
    let mut carry: u64 = 0;
    let mut i: usize = 0;
    assert(d@.take(0) =~= Seq::<u32>::empty());
    assert(value_of(r@) == 0 && value_of(d@.take(0)) == 0);
    while i < d.len()
        invariant
            i <= d.len(),
            r.len() == i,
            is_digits(d@),
            is_digits(r@),
            carry <= m,
            value_of(r@) + carry * power(1000, i as nat) == value_of(d@.take(i as int)) * m,
        decreases d.len() - i,
    {
        let x = d[i] as u64;
        assert(x * (m as u64) <= 999 * 0xffff_ffff) by (nonlinear_arith)
            requires
                x < 1000,
                m <= 0xffff_ffff,
        ;
        let t = x * (m as u64) + carry;
        let digit = (t % 1000) as u32;
        proof {
            lemma_value_push(r@, digit);
            assert(d@.take(i + 1) =~= d@.take(i as int).push(d[i as int]));
            lemma_value_push(d@.take(i as int), d[i as int]);
            let p = power(1000, i as nat);
            let v = value_of(d@.take(i as int));
            assert(digit * p + (t / 1000) * (1000 * p) == t * p) by (nonlinear_arith)
                requires
                    digit == t % 1000,
            ;
            assert(t * p == x * m * p + carry * p) by (nonlinear_arith)
                requires
                    t == x * m + carry,
            ;
            assert((v + x * p) * m == v * m + x * m * p) by (nonlinear_arith);
            assert(t / 1000 <= m as int) by (nonlinear_arith)
                requires
                    t == x * m + carry,
                    x < 1000,
                    carry <= m,
            ;
        }
        r.push(digit);
        carry = t / 1000;
        i = i + 1;
    }
    assert(d@.take(d.len() as int) =~= d@);
    while carry > 0
        invariant
            is_digits(r@),
            value_of(r@) + carry * power(1000, r.len() as nat) == value_of(d@) * m,
        decreases carry,
    {
        let digit = (carry % 1000) as u32;
        proof {
            lemma_value_push(r@, digit);
            let p = power(1000, r.len() as nat);
            assert(digit * p + (carry / 1000) * (1000 * p) == carry * p) by (nonlinear_arith)
                requires
                    digit == carry % 1000,
            ;
        }
        r.push(digit);
        carry = carry / 1000;
    }
    r
}

} // verus!
