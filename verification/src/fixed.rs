//! Signed Q32.32 fixed-point arithmetic.
//!
//! A plane coordinate `v` is stored as the `i64` value `v * 2^32`. Products
//! are formed in 128-bit arithmetic and rescaled with division truncated
//! toward zero, so the exec code and the spec-level model agree bit for bit.

use vstd::prelude::*;

verus! {

/// The fixed-point scale factor `2^32`: the representation of `1.0`.
pub const FP_SCALE: i64 = 0x1_0000_0000;

/// Largest magnitude accepted by `fp_mul`: products of two such operands
/// rescale back into `i64` range with room to spare.
pub const FP_MUL_ARG_MAX: i64 = 0x8000_0000_0000;

/// Division truncated toward zero, the semantics of Rust's `/` on integers,
/// for a positive divisor.
pub open spec fn tdiv(a: int, d: int) -> int
    recommends
        d > 0,
{
    if a >= 0 {
        a / d
    } else {
        -((-a) / d)
    }
}

/// The fixed-point product: the mathematical product rescaled by `2^32`,
/// truncated toward zero.
pub open spec fn fmul(a: int, b: int) -> int {
    tdiv(a * b, FP_SCALE as int)
}

/// Fixed-point multiplication, exact per `fmul`.
pub fn fp_mul(a: i64, b: i64) -> (r: i64)
    requires
        -FP_MUL_ARG_MAX <= a <= FP_MUL_ARG_MAX,
        -FP_MUL_ARG_MAX <= b <= FP_MUL_ARG_MAX,
    ensures
        r == fmul(a as int, b as int),
{
    let neg: bool = (a < 0) != (b < 0);
    let ua: u64 = if a < 0 {
        (-a) as u64
    } else {
        a as u64
    };
    let ub: u64 = if b < 0 {
        (-b) as u64
    } else {
        b as u64
    };
    proof {
        assert((ua as int) * (ub as int) <= 0x8000_0000_0000 * 0x8000_0000_0000)
            by (nonlinear_arith)
            requires
                ua <= 0x8000_0000_0000,
                ub <= 0x8000_0000_0000,
        ;
    }
    let prod: u128 = (ua as u128) * (ub as u128);
    let scaled: u128 = prod / 0x1_0000_0000;
    proof {
        assert(scaled * 0x1_0000_0000 <= prod) by (nonlinear_arith)
            requires
                scaled == prod as int / 0x1_0000_0000,
                prod >= 0,
        ;
        lemma_abs_product(a as int, b as int, ua as int, ub as int);
        if neg {
            assert((a as int) * (b as int) == -(prod as int));
            if prod == 0 {
                assert(fmul(a as int, b as int) == 0);
            } else {
                assert(fmul(a as int, b as int) == -(scaled as int));
            }
        } else {
            assert((a as int) * (b as int) == prod as int);
            assert(fmul(a as int, b as int) == scaled as int);
        }
    }
    if neg {
        -(scaled as i64)
    } else {
        scaled as i64
    }
}

/// Relates a product of magnitudes to the signed product: `|a * b| == ua * ub`
/// when `ua == |a|` and `ub == |b|`.
proof fn lemma_abs_product(a: int, b: int, ua: int, ub: int)
    requires
        ua == if a >= 0 { a } else { -a },
        ub == if b >= 0 { b } else { -b },
    ensures
        ua * ub >= 0,
        (a < 0) == (b < 0) ==> a * b == ua * ub,
        (a < 0) != (b < 0) ==> a * b == -(ua * ub),
{
    assert(ua * ub >= 0 && ((a < 0) == (b < 0) ==> a * b == ua * ub) && ((a < 0) != (b < 0)
        ==> a * b == -(ua * ub))) by (nonlinear_arith)
        requires
            ua == if a >= 0 { a } else { -a },
            ub == if b >= 0 { b } else { -b },
    ;
}

} // verus!
