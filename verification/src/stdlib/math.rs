//! Integer arithmetic helpers.
use vstd::prelude::*;
use vstd::arithmetic::power::pow as power;

verus! {

/// The product of the numbers from 1 to `n`.
pub open spec fn factorial_of(n: nat) -> nat
    decreases n,
{
    if n == 0 {
        1
    } else {
        n * factorial_of((n - 1) as nat)
    }
}

/// Factorials grow with their argument.
pub proof fn lemma_factorial_increases(i: nat, n: nat)
    requires
        i <= n,
    ensures
        1 <= factorial_of(i) <= factorial_of(n),
    decreases n,
{
    if n == 0 {
    } else if i == n {
        lemma_factorial_increases((i - 1) as nat, (n - 1) as nat);
        assert(n * factorial_of((n - 1) as nat) >= factorial_of((n - 1) as nat)) by (nonlinear_arith)
            requires
                n >= 1,
        ;
    } else {
        lemma_factorial_increases(i, (n - 1) as nat);
        assert(n * factorial_of((n - 1) as nat) >= factorial_of((n - 1) as nat)) by (nonlinear_arith)
            requires
                n >= 1,
        ;
    }
}

/// The factorial of `n`, where it fits in 64 bits.
pub fn factorial(n: u64) -> (r: u64)
    requires
        factorial_of(n as nat) <= u64::MAX,
    ensures
        r == factorial_of(n as nat),
{
    let mut product: u64 = 1;
    let mut i: u64 = 0;
    while i < n
        invariant
            0 <= i <= n,
            product == factorial_of(i as nat),
            factorial_of(n as nat) <= u64::MAX,
        decreases n - i,
    {
        proof {
            lemma_factorial_increases((i + 1) as nat, n as nat);
            assert(factorial_of((i + 1) as nat) == (i + 1) * factorial_of(i as nat));
        }
        i += 1;
        product = product * i;
    }
    product
}

/// The magnitude of an integer.
pub open spec fn magnitude(x: int) -> int {
    if x < 0 {
        -x
    } else {
        x
    }
}

/// The absolute value of `x`. The least 64-bit integer has none in 64 bits.
pub fn abs(x: i64) -> (r: i64)
    requires
        x != i64::MIN,
    ensures
        r == magnitude(x as int),
{
    if x < 0 {
        -x
    } else {
        x
    }
}

/// The magnitude of a power is the power of the magnitude: it is 0 for a zero
/// base and a positive exponent, 1 for a base of magnitude 1, and at least
/// doubles with each step of the exponent for a greater base.
pub proof fn lemma_power_magnitude(b: int, k: nat, e: nat)
    requires
        k < e,
    ensures
        b == 0 ==> power(b, e) == 0,
        magnitude(b) == 1 ==> magnitude(power(b, k)) == 1 && magnitude(power(b, e)) == 1,
        magnitude(b) >= 2 ==> 1 <= magnitude(power(b, k)) && 2 * magnitude(power(b, k))
            <= magnitude(power(b, e)),
    decreases e,
{
    reveal(power);
    let p = power(b, (e - 1) as nat);
    assert(power(b, e) == b * p);
    if k + 1 < e {
        lemma_power_magnitude(b, k, (e - 1) as nat);
    } else if k > 0 {
        lemma_power_magnitude(b, (k - 1) as nat, (e - 1) as nat);
    }
    assert(magnitude(b) == 1 ==> magnitude(b * p) == magnitude(p)) by (nonlinear_arith);
    assert(magnitude(b) >= 2 && magnitude(p) >= 1 ==> magnitude(b * p) >= 2 * magnitude(p))
        by (nonlinear_arith);
    assert(b == 0 ==> b * p == 0) by (nonlinear_arith);
}

/// `base` to the power of `exponent`, where it fits in 64 bits.
pub fn pow(base: i64, exponent: u32) -> (r: i64)
    requires
        i64::MIN <= power(base as int, exponent as nat) <= i64::MAX,
    ensures
        r == power(base as int, exponent as nat),
{
    let mut result: i64 = 1;
    let mut i: u32 = 0;
    proof {
        reveal(power);
    }
    while i < exponent
        invariant
            0 <= i <= exponent,
            result == power(base as int, i as nat),
            i64::MIN <= power(base as int, exponent as nat) <= i64::MAX,
        decreases exponent - i,
    {
        proof {
            reveal(power);
            let next = power(base as int, (i + 1) as nat);
            assert(next == base * power(base as int, i as nat));
            assert(result * base == base * result) by (nonlinear_arith);
            if i + 1 < exponent {
                lemma_power_magnitude(base as int, (i + 1) as nat, exponent as nat);
                if base == 0 {
                    assert(base * result == 0) by (nonlinear_arith)
                        requires
                            base == 0,
                    ;
                }
            }
        }
        result = result * base;
        i += 1;
    }
    result
}

/// The greater of two numbers.
pub fn max(a: i64, b: i64) -> (r: i64)
    ensures
        r == if a >= b {
            a
        } else {
            b
        },
{
    if a >= b {
        a
    } else {
        b
    }
}

/// The smaller of two numbers.
pub fn min(a: i64, b: i64) -> (r: i64)
    ensures
        r == if a <= b {
            a
        } else {
            b
        },
{
    if a <= b {
        a
    } else {
        b
    }
}

} // verus!
