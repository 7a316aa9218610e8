//! Fixed-point helpers shared by the components of the engine.
use vstd::prelude::*;

verus! {

/// 1.0 as a Q16 fixed-point number.
pub const ONE: u64 = 65536;

/// Floor division of a signed value by a positive divisor, as `x / d` means in specifications.
pub fn floor_div(x: i64, d: i64) -> (r: i64)
    requires
        d > 0,
        x > i64::MIN,
    ensures
        r == x / d,
{
    if x >= 0 {
        x / d
    } else {
        let m: u64 = (-x) as u64;
        let q: u64 = (m - 1) / (d as u64) + 1;
        proof {
            lemma_floor_of_negative(m as int, d as int);
        }
        -(q as i64)
    }
}

proof fn lemma_floor_of_negative(m: int, d: int)
    requires
        m > 0,
        d > 0,
    ensures
        -((m - 1) / d + 1) == (-m) / d,
        (m - 1) / d + 1 <= m,
{
    vstd::arithmetic::div_mod::lemma_fundamental_div_mod(m - 1, d);
    vstd::arithmetic::div_mod::lemma_fundamental_div_mod(-m, d);
    let q = (m - 1) / d;
    let r = (m - 1) % d;
    let q2 = (-m) / d;
    let r2 = (-m) % d;
    assert(q + q2 == -1) by (nonlinear_arith)
        requires
            m - 1 == d * q + r,
            -m == d * q2 + r2,
            0 <= r < d,
            0 <= r2 < d,
            d > 0,
    ;
    assert(q + 1 <= m) by (nonlinear_arith)
        requires
            m - 1 == d * q + r,
            0 <= r < d,
            d > 0,
            m > 0,
    ;
}

} // verus!
