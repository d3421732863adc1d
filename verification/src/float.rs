//! Double-precision numbers by their bits.
use vstd::arithmetic::power2::pow2;
use vstd::prelude::*;

verus! {

/// The biased exponent in the bits of a double-precision number.
pub open spec fn exponent_field(bits: u64) -> nat {
    ((bits / 0x10_0000_0000_0000) % 0x800) as nat
}

/// The fraction in the bits of a double-precision number.
pub open spec fn fraction_field(bits: u64) -> nat {
    (bits % 0x10_0000_0000_0000) as nat
}

/// The integer part of the magnitude that the bits stand for, held to 2^63; 0 for what is no
/// number.
pub open spec fn integer_part(bits: u64) -> nat {
    let e = exponent_field(bits);
    let significand = fraction_field(bits) + 0x10_0000_0000_0000;
    if e == 0x7ff && fraction_field(bits) != 0 {
        0
    } else if e < 1023 {
        0
    } else if e >= 1086 {
        0x8000_0000_0000_0000
    } else if e <= 1075 {
        significand / pow2((1075 - e) as nat)
    } else {
        significand * pow2((e - 1075) as nat)
    }
}

/// The number that the bits stand for, cut off toward zero and held to the range of `i64`.
pub open spec fn truncated(bits: u64) -> i64 {
    if bits >= 0x8000_0000_0000_0000 {
        (-(integer_part(bits) as int)) as i64
    } else if integer_part(bits) > i64::MAX {
        i64::MAX
    } else {
        integer_part(bits) as i64
    }
}

proof fn lemma_fields(bits: u64)
    ensures
        (bits >> 52) & 0x7ff == exponent_field(bits),
        bits & 0xf_ffff_ffff_ffff == fraction_field(bits),
{
    assert((bits >> 52) & 0x7ff == (bits / 0x10_0000_0000_0000) % 0x800) by (bit_vector);
    assert(bits & 0xf_ffff_ffff_ffff == bits % 0x10_0000_0000_0000) by (bit_vector);
}

proof fn lemma_integer_part_bound(bits: u64)
    ensures
        integer_part(bits) <= 0x8000_0000_0000_0000,
{
    let e = exponent_field(bits);
    let significand = fraction_field(bits) + 0x10_0000_0000_0000;
    if 1023 <= e <= 1075 {
        let d = pow2((1075 - e) as nat);
        vstd::arithmetic::power2::lemma_pow2_pos((1075 - e) as nat);
        assert(significand / d <= significand) by (nonlinear_arith)
            requires
                d > 0,
        ;
    } else if 1075 < e < 1086 {
        let k = (e - 1075) as nat;
        vstd::arithmetic::power2::lemma2_to64();
        if k < 10 {
            vstd::arithmetic::power2::lemma_pow2_strictly_increases(k, 10);
        }
        assert(significand * pow2(k) <= 0x20_0000_0000_0000 * 1024) by (nonlinear_arith)
            requires
                significand <= 0x20_0000_0000_0000,
                pow2(k) <= 1024,
        ;
    }
}

/// The number that `bits` stand for, cut off toward zero and held to the range of `i64`.
pub fn truncate_bits(bits: u64) -> (r: i64)
    ensures
        r == truncated(bits),
{
    proof {
        lemma_fields(bits);
        lemma_integer_part_bound(bits);
    }
    let e: u64 = (bits >> 52) & 0x7ff;
    let fraction: u64 = bits & 0xf_ffff_ffff_ffff;
    let significand: u64 = fraction + 0x10_0000_0000_0000;
    let part: u64 = if (e == 0x7ff && fraction != 0) || e < 1023 {
        0
    } else if e >= 1086 {
        0x8000_0000_0000_0000
    } else if e <= 1075 {
        let shift: u64 = 1075 - e;
        proof {
            vstd::bits::lemma_u64_shr_is_div(significand, shift);
        }
        significand >> shift
    } else {
        let shift: u64 = e - 1075;
        proof {
            vstd::bits::lemma_u64_shl_is_mul(significand, shift);
        }
        significand << shift
    };
    if bits >= 0x8000_0000_0000_0000 {
        if part == 0x8000_0000_0000_0000 {
            i64::MIN
        } else {
            -(part as i64)
        }
    } else if part > 0x7fff_ffff_ffff_ffff {
        i64::MAX
    } else {
        part as i64
    }
}

} // verus!
