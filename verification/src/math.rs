use vstd::arithmetic::div_mod::*;
use vstd::arithmetic::mul::*;
use vstd::prelude::*;

verus! {

/// `root` is the floor of the square root of `value`.
pub open spec fn is_floor_sqrt(root: int, value: int) -> bool {
    &&& 0 <= root
    &&& root * root <= value
    &&& value < (root + 1) * (root + 1)
}

/// The floor of the square root of `value`.
pub open spec fn floor_sqrt(value: nat) -> nat {
    choose|root: nat| is_floor_sqrt(root as int, value as int)
}

/// At most one integer is the floor square root of a value.
pub proof fn lemma_floor_sqrt_unique(r1: int, r2: int, value: int)
    requires
        is_floor_sqrt(r1, value),
        is_floor_sqrt(r2, value),
    ensures
        r1 == r2,
{
    if r1 < r2 {
        assert((r1 + 1) * (r1 + 1) <= r2 * r2) by {
            lemma_mul_upper_bound(r1 + 1, r2, r1 + 1, r2);
        }
    } else if r2 < r1 {
        assert((r2 + 1) * (r2 + 1) <= r1 * r1) by {
            lemma_mul_upper_bound(r2 + 1, r1, r2 + 1, r1);
        }
    }
}

/// Any witness of `is_floor_sqrt` is the value of `floor_sqrt`.
pub proof fn lemma_floor_sqrt_is(root: nat, value: nat)
    requires
        is_floor_sqrt(root as int, value as int),
    ensures
        floor_sqrt(value) == root,
{
    let r = floor_sqrt(value);
    assert(is_floor_sqrt(r as int, value as int));
    lemma_floor_sqrt_unique(r as int, root as int, value as int);
}

/// Every value has a floor square root, and `floor_sqrt` is it.
pub proof fn lemma_floor_sqrt_exists(value: nat)
    ensures
        is_floor_sqrt(floor_sqrt(value) as int, value as int),
    decreases value,
{
    if value == 0 {
        assert(is_floor_sqrt(0, 0));
        lemma_floor_sqrt_is(0, 0);
    } else {
        let prev = (value - 1) as nat;
        lemma_floor_sqrt_exists(prev);
        let r = floor_sqrt(prev) as int;
        if (r + 1) * (r + 1) <= value {
            assert(value < (r + 2) * (r + 2)) by (nonlinear_arith)
                requires
                    value - 1 < (r + 1) * (r + 1),
                    r >= 0,
            ;
            assert(is_floor_sqrt(r + 1, value as int));
            lemma_floor_sqrt_is((r + 1) as nat, value);
        } else {
            assert(is_floor_sqrt(r, value as int));
            lemma_floor_sqrt_is(r as nat, value);
        }
    }
}

/// The floor square root of a product of two `u64` values fits in a `u64`.
pub proof fn lemma_floor_sqrt_of_u64_product_fits(a: u64, b: u64)
    ensures
        floor_sqrt((a * b) as nat) <= u64::MAX,
{
    let v = (a * b) as nat;
    lemma_mul_upper_bound(a as int, u64::MAX as int, b as int, u64::MAX as int);
    lemma_floor_sqrt_exists(v);
    let r = floor_sqrt(v) as int;
    if r > u64::MAX {
        assert(r * r > (u64::MAX as int) * (u64::MAX as int)) by (nonlinear_arith)
            requires
                r > u64::MAX,
        ;
    }
}

/// One Newton step `(x + value / x) / 2` never falls below the floor square root.
proof fn lemma_newton_step_stays_above(value: int, x: int)
    requires
        value >= 0,
        x >= 1,
    ensures
        value < ((x + value / x) / 2 + 1) * ((x + value / x) / 2 + 1),
{
    let q = value / x;
    let r = value % x;
    lemma_fundamental_div_mod(value, x);
    lemma_mod_bound(value, x);
    lemma_div_pos_is_pos(value, x);
    let y = (x + q) / 2;
    let t = (x + q) % 2;
    assert(x + q == 2 * y + t && 0 <= t <= 1);
    assert(4 * value <= 4 * x * q + 4 * x - 4) by (nonlinear_arith)
        requires
            value == x * q + r,
            0 <= r < x,
    ;
    assert((x + q + 1) * (x + q + 1) == (4 * x * q + 4 * x - 4) + (x - q - 1) * (x - q - 1) + 4)
        by (nonlinear_arith);
    assert((x - q - 1) * (x - q - 1) >= 0) by (nonlinear_arith);
    assert((x + q + 1) * (x + q + 1) <= (2 * y + 2) * (2 * y + 2)) by {
        lemma_mul_upper_bound(x + q + 1, 2 * y + 2, x + q + 1, 2 * y + 2);
    }
    assert((2 * y + 2) * (2 * y + 2) == 4 * ((y + 1) * (y + 1))) by (nonlinear_arith);
}

/// When the next Newton step does not go down, `x` squared is at most `value`.
proof fn lemma_newton_fixpoint_below(value: int, x: int)
    requires
        value >= 0,
        x >= 1,
        (x + value / x) / 2 >= x,
    ensures
        x * x <= value,
{
    let q = value / x;
    lemma_fundamental_div_mod(value, x);
    lemma_mod_bound(value, x);
    assert(q >= x);
    lemma_mul_inequality(x, q, x);
    lemma_mul_is_commutative(x, q);
}

/// For `1 <= x <= value`, the sum `x + value / x` is at most `value + 1`.
proof fn lemma_newton_sum_bound(value: int, x: int)
    requires
        1 <= x <= value,
    ensures
        x + value / x <= value + 1,
{
    let q = value / x;
    lemma_fundamental_div_mod(value, x);
    lemma_mod_bound(value, x);
    lemma_div_is_ordered(x, value, x);
    lemma_div_by_self(x);
    assert(q >= 1);
    assert((x - 1) * (q - 1) >= 0) by (nonlinear_arith)
        requires
            x >= 1,
            q >= 1,
    ;
    assert(x * q <= value);
    assert(x + q <= x * q + 1) by (nonlinear_arith)
        requires
            (x - 1) * (q - 1) >= 0,
    ;
}

/// Integer square root (floor) via Newton's method. Used only to size the
/// very first liquidity deposit into a pool.
pub fn integer_sqrt(value: u128) -> (root: u128)
    requires
        value < u128::MAX,
    ensures
        is_floor_sqrt(root as int, value as int),
        root == floor_sqrt(value as nat),
        root * root <= value,
        value < (root + 1) * (root + 1),
{
    if value == 0 {
        proof {
            lemma_floor_sqrt_is(0, 0);
        }
        return 0;
    }
    let mut x = value;
    let mut y = (x + 1) / 2;
    proof {
        lemma_div_by_self(value as int);
        assert((value as int) < (value + 1) * (value + 1)) by (nonlinear_arith)
            requires
                value >= 1,
        ;
    }
    while y < x
        invariant
            1 <= x <= value,
            value < u128::MAX,
            (value as int) < (x + 1) * (x + 1),
            y as int == (x + value / x) / 2,
        decreases x,
    {
        proof {
            lemma_newton_step_stays_above(value as int, x as int);
        }
        x = y;
        assert(x >= 1) by (nonlinear_arith)
            requires
                (value as int) < (x + 1) * (x + 1),
                value >= 1,
                x >= 0,
        ;
        proof {
            lemma_newton_sum_bound(value as int, x as int);
        }
        y = (x + value / x) / 2;
    }
    proof {
        lemma_newton_fixpoint_below(value as int, x as int);
        lemma_floor_sqrt_is(x as nat, value as nat);
    }
    x
}

} // verus!
