use vstd::arithmetic::div_mod::lemma_fundamental_div_mod_converse;
use vstd::prelude::*;

verus! {

/// `floor(a * b / c)` over the mathematical integers.
pub open spec fn mul_div_floor(a: nat, b: nat, c: nat) -> nat
    recommends
        c > 0,
{
    (a * b) / c
}

/// The quotient of `x * y` by `c` is below `y` where `x` is below `c`.
proof fn lemma_quotient_below(q: int, r: int, x: int, y: int, c: int)
    by (nonlinear_arith)
    requires
        0 <= r,
        0 <= x < c,
        0 < y,
        q * c + r == x * y,
    ensures
        q < y,
{
}

/// Two products by `x`, each split by `c`, add up part by part: with or
/// without a carry from the remainders.
proof fn lemma_add_parts(q1: int, r1: int, q2: int, r2: int, x: int, y1: int, y2: int, c: int)
    by (nonlinear_arith)
    requires
        x * y1 == q1 * c + r1,
        x * y2 == q2 * c + r2,
    ensures
        x * (y1 + y2) == (q1 + q2) * c + (r1 + r2),
        x * (y1 + y2) == (q1 + q2 + 1) * c + (r1 + r2 - c),
{
}

/// A product split by `c` doubles part by part: with or without a carry
/// from the remainder.
proof fn lemma_double_part(q: int, r: int, x: int, y: int, c: int)
    by (nonlinear_arith)
    requires
        x * y == q * c + r,
    ensures
        x * (2 * y) == (2 * q) * c + (r + r),
        x * (2 * y) == (2 * q + 1) * c + (r + r - c),
{
}

/// With `a` split by `c`, the product `a * b` splits by `c` as well.
proof fn lemma_split_product(a: int, b: int, c: int, q0: int, r0: int, q: int, r: int)
    by (nonlinear_arith)
    requires
        a == q0 * c + r0,
        r0 * b == q * c + r,
    ensures
        a * b == (q0 * b + q) * c + r,
{
}

/// `floor(x * b / c)` for `x < c`, which never exceeds `b`.
fn mul_div_small(x: u128, b: u128, c: u128) -> (q: u128)
    requires
        x < c,
    ensures
        q == mul_div_floor(x as nat, b as nat, c as nat),
        q <= b,
{
    // The bits of `b` are taken from the lowest up: `low` is the part of `b`
    // already taken, `weight` the value of the next bit, and both `x * low` and
    // `x * weight` are kept as a quotient and a remainder by `c`.
    let mut n: u128 = b;
    let mut q: u128 = 0;
    let mut r: u128 = 0;
    let mut wq: u128 = 0;
    let mut wr: u128 = x;
    let ghost mut low: int = 0;
    let ghost mut weight: int = 1;
    assert(x * weight == wq * c + wr) by (nonlinear_arith)
        requires
            weight == 1,
            wq == 0,
            wr == x,
    ;
    assert(x * low == q * c + r) by (nonlinear_arith)
        requires
            low == 0,
            q == 0,
            r == 0,
    ;
    while n > 0
        invariant
            x < c,
            0 <= low,
            0 < weight,
            n * weight + low == b,
            r < c,
            x * low == q * c + r,
            n > 0 ==> wr < c && x * weight == wq * c + wr,
        decreases n,
    {
        assert(weight <= b) by (nonlinear_arith)
            requires
                n >= 1,
                weight > 0,
                low >= 0,
                n * weight + low == b,
        ;
        let bit: u128 = n % 2;
        let half: u128 = n / 2;
        if bit == 1 {
            proof {
                lemma_add_parts(q as int, r as int, wq as int, wr as int, x as int, low, weight, c as int);
                assert(low + weight <= b) by (nonlinear_arith)
                    requires
                        n >= 1,
                        weight > 0,
                        n * weight + low == b,
                ;
            }
            if r >= c - wr {
                proof {
                    lemma_quotient_below(q + wq + 1, r + wr - c, x as int, low + weight, c as int);
                }
                r = r - (c - wr);
                q = q + wq + 1;
            } else {
                proof {
                    lemma_quotient_below(q + wq, r + wr, x as int, low + weight, c as int);
                }
                r = r + wr;
                q = q + wq;
            }
            proof {
                low = low + weight;
            }
        }
        assert(half * (2 * weight) + low == b) by (nonlinear_arith)
            requires
                n == 2 * half + bit,
                bit == 1 ==> n * weight + (low - weight) == b,
                bit != 1 ==> bit == 0 && n * weight + low == b,
        ;
        if half > 0 {
            proof {
                lemma_double_part(wq as int, wr as int, x as int, weight, c as int);
                assert(2 * weight <= b) by (nonlinear_arith)
                    requires
                        half >= 1,
                        weight > 0,
                        low >= 0,
                        half * (2 * weight) + low == b,
                ;
            }
            if wr >= c - wr {
                proof {
                    lemma_quotient_below(2 * wq + 1, wr + wr - c, x as int, 2 * weight, c as int);
                }
                wr = wr - (c - wr);
                wq = wq + wq + 1;
            } else {
                proof {
                    lemma_quotient_below(2 * wq, wr + wr, x as int, 2 * weight, c as int);
                }
                wr = wr + wr;
                wq = wq + wq;
            }
        }
        proof {
            weight = 2 * weight;
        }
        n = half;
    }
    proof {
        assert(low == b);
        lemma_fundamental_div_mod_converse(x as int * b as int, c as int, q as int, r as int);
        if b > 0 {
            lemma_quotient_below(q as int, r as int, x as int, b as int, c as int);
        } else {
            assert(q * c + r == 0);
            assert(q == 0) by (nonlinear_arith)
                requires
                    q * c + r == 0,
                    c > 0,
                    q >= 0,
                    r >= 0,
            ;
        }
    }
    q
}

/// `floor(a * b / c)`, computed without losing a bit of the product: `None`
/// exactly when the quotient does not fit in 128 bits.
pub fn mul_div(a: u128, b: u128, c: u128) -> (res: Option<u128>)
    requires
        c > 0,
    ensures
        res == (if mul_div_floor(a as nat, b as nat, c as nat) <= u128::MAX {
            Some(mul_div_floor(a as nat, b as nat, c as nat) as u128)
        } else {
            None
        }),
{
    let q0: u128 = a / c;
    let r0: u128 = a % c;
    let q: u128 = mul_div_small(r0, b, c);
    let ghost r: int = (r0 as int * b as int) % (c as int);
    proof {
        vstd::arithmetic::div_mod::lemma_fundamental_div_mod(r0 as int * b as int, c as int);
        vstd::arithmetic::div_mod::lemma_mod_pos_bound(r0 as int * b as int, c as int);
        assert(r0 * b == q * c + r) by (nonlinear_arith)
            requires
                r0 * b == c * q + r,
        ;
        vstd::arithmetic::div_mod::lemma_fundamental_div_mod(a as int, c as int);
        assert(a == q0 * c + r0) by (nonlinear_arith)
            requires
                a == c * q0 + r0,
        ;
        lemma_split_product(a as int, b as int, c as int, q0 as int, r0 as int, q as int, r);
        lemma_fundamental_div_mod_converse(a as int * b as int, c as int, q0 * b + q, r);
        assert(mul_div_floor(a as nat, b as nat, c as nat) == q0 * b + q);
    }
    match q0.checked_mul(b) {
        None => None,
        Some(p) => p.checked_add(q),
    }
}

} // verus!
