//! Small arithmetic helpers shared by the executor: 8- and 16-bit
//! wraparound, and injectivity of offsets under a modulus.

use vstd::prelude::*;

verus! {

/// 8-bit wraparound of a value in (-256, 512): the result of one 8-bit
/// addition or subtraction.
pub open spec fn wrap8(a: int) -> u8 {
    if a > 255 {
        (a - 256) as u8
    } else if a < 0 {
        (a + 256) as u8
    } else {
        a as u8
    }
}

/// 16-bit wraparound of a value in [0, 2^17): the result of one 16-bit
/// addition.
pub open spec fn wrap16(a: int) -> u16 {
    if a > 0xFFFF {
        (a - 0x10000) as u16
    } else {
        a as u16
    }
}

/// Two distinct offsets below the modulus land on distinct addresses,
/// whatever the base: `a + r` taken mod `m` is injective in `r` on
/// `[0, m)`.
pub proof fn lemma_mod_injective(a: int, r1: int, r2: int, m: int)
    requires
        m > 0,
        0 <= r1 < m,
        0 <= r2 < m,
        (a + r1) % m == (a + r2) % m,
    ensures
        r1 == r2,
{
    let s = (a + r1) % m;
    vstd::arithmetic::div_mod::lemma_fundamental_div_mod(a + r1, m);
    vstd::arithmetic::div_mod::lemma_fundamental_div_mod(a + r2, m);
    let q1 = (a + r1) / m;
    let q2 = (a + r2) / m;
    assert(r1 - r2 == m * (q1 - q2)) by (nonlinear_arith)
        requires
            a + r1 == m * q1 + s,
            a + r2 == m * q2 + s,
    ;
    if q1 > q2 {
        assert(m * (q1 - q2) >= m) by (nonlinear_arith)
            requires
                m > 0,
                q1 - q2 >= 1,
        ;
    } else if q1 < q2 {
        assert(m * (q1 - q2) <= -m) by (nonlinear_arith)
            requires
                m > 0,
                q2 - q1 >= 1,
        ;
    }
}

} // verus!
