//! Gains in decibels, held as the bit pattern of an IEEE-754 single.

use vstd::arithmetic::power2::{
    lemma_pow2_adds, lemma_pow2_pos, lemma_pow2_strictly_increases, pow2,
};
use vstd::prelude::*;

verus! {

/// The 31 bits of `bits` below its sign.
pub open spec fn unsigned_part(bits: u32) -> int {
    bits as int % 0x8000_0000
}

/// Whether the sign bit of `bits` is set.
pub open spec fn is_negative(bits: u32) -> bool {
    bits >= 0x8000_0000
}

/// Whether `bits` encodes a number, so neither an infinity nor a NaN.
pub open spec fn is_finite(bits: u32) -> bool {
    unsigned_part(bits) < 0x7f80_0000
}

/// The magnitude that the 31 bits `u` below the sign encode, in units of 2^-149.
pub open spec fn magnitude(u: int) -> int {
    let exponent = u / 0x80_0000;
    let mantissa = u % 0x80_0000;
    if exponent <= 0 {
        mantissa
    } else {
        (mantissa + 0x80_0000) * pow2((exponent - 1) as nat)
    }
}

/// The number that `bits` encodes, in units of 2^-149.
pub open spec fn scaled_value(bits: u32) -> int {
    if is_negative(bits) {
        -magnitude(unsigned_part(bits))
    } else {
        magnitude(unsigned_part(bits))
    }
}

/// A larger pattern below the sign encodes a larger magnitude.
pub proof fn lemma_magnitude_increases(a: int, b: int)
    requires
        0 <= a < b,
    ensures
        magnitude(a) < magnitude(b),
{
    let (ea, ma) = (a / 0x80_0000, a % 0x80_0000);
    let (eb, mb) = (b / 0x80_0000, b % 0x80_0000);
    assert(a == ea * 0x80_0000 + ma);
    assert(b == eb * 0x80_0000 + mb);
    if ea == eb {
        if ea > 0 {
            let p = pow2((ea - 1) as nat) as int;
            lemma_pow2_pos((ea - 1) as nat);
            assert((ma + 0x80_0000) * p < (mb + 0x80_0000) * p) by (nonlinear_arith)
                requires
                    ma < mb,
                    p > 0,
            ;
        }
    } else {
        assert(ea < eb);
        let q = pow2((eb - 1) as nat) as int;
        lemma_pow2_pos((eb - 1) as nat);
        assert((mb + 0x80_0000) * q >= 0x80_0000 * q) by (nonlinear_arith)
            requires
                mb >= 0,
                q > 0,
        ;
        if ea == 0 {
            assert(ma < 0x80_0000 * q) by (nonlinear_arith)
                requires
                    ma < 0x80_0000,
                    q >= 1,
            ;
        } else {
            let p = pow2((ea - 1) as nat) as int;
            lemma_pow2_pos((ea - 1) as nat);
            vstd::arithmetic::power2::lemma2_to64();
            lemma_pow2_adds((ea - 1) as nat, 1);
            assert(pow2(ea as nat) == p * 2);
            if ea < eb - 1 {
                lemma_pow2_strictly_increases(ea as nat, (eb - 1) as nat);
            }
            assert((ma + 0x80_0000) * p < 0x80_0000 * q) by (nonlinear_arith)
                requires
                    0 <= ma < 0x80_0000,
                    p > 0,
                    p * 2 <= q,
            ;
        }
    }
}

/// A gain in decibels, kept as the bit pattern of its IEEE-754 single.
#[derive(Clone, Copy, Debug, PartialEq, Eq, Structural)]
pub struct Decibels {
    /// The bit pattern of the number of decibels.
    pub bits: u32,
}

/// Whether a gain is a number from -60 dB to +12 dB.
pub open spec fn gain_allowed(gain: Decibels) -> bool {
    &&& is_finite(gain.bits)
    &&& -60 * pow2(149) <= scaled_value(gain.bits) <= 12 * pow2(149)
}

proof fn lemma_gain_limits()
    ensures
        magnitude(0x4140_0000) == 12 * pow2(149),
        magnitude(0x4270_0000) == 60 * pow2(149),
        magnitude(0) == 0,
{
    vstd::arithmetic::power2::lemma2_to64();
    lemma_pow2_adds(129, 20);
    assert(0x4140_0000int / 0x80_0000 == 130 && 0x4140_0000int % 0x80_0000 == 0x40_0000);
    assert(0xc0_0000 * pow2(129) == 12 * (pow2(129) * 0x10_0000)) by (nonlinear_arith);
    lemma_pow2_adds(131, 18);
    assert(0x4270_0000int / 0x80_0000 == 132 && 0x4270_0000int % 0x80_0000 == 0x70_0000);
    assert(0xf0_0000 * pow2(131) == 60 * (pow2(131) * 0x4_0000)) by (nonlinear_arith);
}

/// The gains that are allowed reach from -60 dB (0xc270_0000) over silence to +12 dB
/// (0x4140_0000), both included, and hold neither an infinity nor a NaN.
pub proof fn law_allowed_gains(gain: Decibels)
    ensures
        gain_allowed(gain) <==> gain.bits <= 0x4140_0000 || 0x8000_0000 <= gain.bits <= 0xc270_0000,
{
    lemma_gain_limits();
    let u = unsigned_part(gain.bits);
    let limit: int = if is_negative(gain.bits) {
        0x4270_0000
    } else {
        0x4140_0000
    };
    if u < limit {
        lemma_magnitude_increases(u, limit);
    } else if limit < u {
        lemma_magnitude_increases(limit, u);
    }
    if 0 < u {
        lemma_magnitude_increases(0, u);
    }
    lemma_pow2_pos(149);
}

impl Decibels {
    /// Whether the gain is a number from -60 dB to +12 dB.
    pub fn is_allowed(&self) -> (allowed: bool)
        ensures
            allowed == gain_allowed(*self),
    {
        proof {
            lemma_gain_limits();
            let u = unsigned_part(self.bits);
            let limit: int = if is_negative(self.bits) { 0x4270_0000 } else { 0x4140_0000 };
            if u < limit {
                lemma_magnitude_increases(u, limit);
            } else if limit < u {
                lemma_magnitude_increases(limit, u);
            }
            if 0 < u {
                lemma_magnitude_increases(0, u);
            }
            lemma_pow2_pos(149);
        }
        if self.bits < 0x8000_0000 {
            self.bits <= 0x4140_0000
        } else {
            self.bits - 0x8000_0000 <= 0x4270_0000
        }
    }
}

} // verus!
