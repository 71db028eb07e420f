//! Escape-time evaluation of the Mandelbrot recurrence `z -> z^2 + z0` in
//! Q32.32 fixed point: the returned count is the number of steps taken before
//! the squared modulus reaches the escape threshold `4`, capped at the
//! iteration bound.

use vstd::prelude::*;
use vstd::arithmetic::div_mod::{
    lemma_fundamental_div_mod,
    lemma_mod_bound,
    lemma_div_is_ordered,
    lemma_div_pos_is_pos,
};
use crate::fixed::{fmul, fp_mul, tdiv, FP_SCALE};

verus! {

/// The escape threshold: the plane value 4 (squared modulus), in Q32.32.
pub const ESCAPE_THRESHOLD: i64 = 0x4_0000_0000;

/// The plane value 2 in Q32.32: a point either of whose coordinates reaches
/// this magnitude has squared modulus at least 4 and escapes immediately.
pub const ESCAPE_COMPONENT: i64 = 0x2_0000_0000;

/// Bound on an orbit component across the evaluation loop: ten plane units,
/// covering a non-escaped point (under 2 per coordinate) after one more step
/// of the recurrence.
pub const ORBIT_COMPONENT_MAX: i64 = 0xA_0000_0000;

/// Squared modulus of `(zr, zi)` in the fixed-point model.
pub open spec fn fnorm(zr: int, zi: int) -> int {
    fmul(zr, zr) + fmul(zi, zi)
}

/// Whether the orbit point `(zr, zi)` has escaped: its squared modulus has
/// reached the threshold 4.
pub open spec fn has_escaped(zr: int, zi: int) -> bool {
    fnorm(zr, zi) >= ESCAPE_THRESHOLD
}

/// Real part of one step of the recurrence `z -> z^2 + z0`.
pub open spec fn orbit_step_re(zr: int, zi: int, cr: int) -> int {
    fmul(zr, zr) - fmul(zi, zi) + cr
}

/// Imaginary part of one step of the recurrence `z -> z^2 + z0`.
pub open spec fn orbit_step_im(zr: int, zi: int, ci: int) -> int {
    2 * fmul(zr, zi) + ci
}

/// The escape time of the orbit that currently stands at `(zr, zi)` under the
/// recurrence `z -> z^2 + (cr, ci)`, with `fuel` steps still allowed: the
/// number of steps taken until the point escapes, or `fuel` if it never does.
pub open spec fn escape_time(zr: int, zi: int, cr: int, ci: int, fuel: nat) -> nat
    decreases fuel,
{
    if has_escaped(zr, zi) {
        0
    } else if fuel == 0 {
        0
    } else {
        1 + escape_time(
            orbit_step_re(zr, zi, cr),
            orbit_step_im(zr, zi, ci),
            cr,
            ci,
            (fuel - 1) as nat,
        )
    }
}

/// Escape-time evaluation: starting from `z = (re0, im0)`, iterates
/// `z -> z^2 + (re0, im0)` until the squared modulus reaches 4 or `max_iter`
/// steps were taken, and returns the number of steps taken.
pub fn evaluate(re0: i64, im0: i64, max_iter: u32) -> (n: u32)
    ensures
        n == escape_time(re0 as int, im0 as int, re0 as int, im0 as int, max_iter as nat),
        n <= max_iter,
{
    proof {
        lemma_fmul_self_nonneg(re0 as int);
        lemma_fmul_self_nonneg(im0 as int);
    }
    if re0 >= ESCAPE_COMPONENT || re0 <= -ESCAPE_COMPONENT {
        proof {
            lemma_large_component_escapes(re0 as int);
        }
        return 0;
    }
    if im0 >= ESCAPE_COMPONENT || im0 <= -ESCAPE_COMPONENT {
        proof {
            lemma_large_component_escapes(im0 as int);
        }
        return 0;
    }
    let mut zr: i64 = re0;
    let mut zi: i64 = im0;
    let mut n: u32 = 0;
    loop
        invariant
            n <= max_iter,
            -ESCAPE_COMPONENT < re0 < ESCAPE_COMPONENT,
            -ESCAPE_COMPONENT < im0 < ESCAPE_COMPONENT,
            -ORBIT_COMPONENT_MAX <= zr <= ORBIT_COMPONENT_MAX,
            -ORBIT_COMPONENT_MAX <= zi <= ORBIT_COMPONENT_MAX,
            escape_time(re0 as int, im0 as int, re0 as int, im0 as int, max_iter as nat) == n
                + escape_time(zr as int, zi as int, re0 as int, im0 as int, (max_iter - n) as nat),
        decreases max_iter - n,
    {
        proof {
            lemma_fmul_self_bounds(zr as int, ORBIT_COMPONENT_MAX as int);
            lemma_fmul_self_bounds(zi as int, ORBIT_COMPONENT_MAX as int);
            assert(0xA_0000_0000int * 0xA_0000_0000int / 0x1_0000_0000int == 0x64_0000_0000int);
        }
        let sq_r: i64 = fp_mul(zr, zr);
        let sq_i: i64 = fp_mul(zi, zi);
        if sq_r + sq_i >= ESCAPE_THRESHOLD {
            proof {
                assert(escape_time(zr as int, zi as int, re0 as int, im0 as int, (max_iter
                    - n) as nat) == 0);
            }
            return n;
        }
        if n == max_iter {
            proof {
                assert(escape_time(zr as int, zi as int, re0 as int, im0 as int, 0) == 0);
            }
            return n;
        }
        proof {
            lemma_norm_term_bounds_component(zr as int);
            lemma_norm_term_bounds_component(zi as int);
            lemma_fmul_abs_bound(zr as int, zi as int, 0x2_0000_0000);
            assert(0x2_0000_0000int * 0x2_0000_0000int / 0x1_0000_0000int == 0x4_0000_0000int);
        }
        let cross: i64 = fp_mul(zr, zi);
        let next_zr: i64 = sq_r - sq_i + re0;
        let next_zi: i64 = 2 * cross + im0;
        proof {
            assert(escape_time(zr as int, zi as int, re0 as int, im0 as int, (max_iter
                - n) as nat) == 1 + escape_time(
                next_zr as int,
                next_zi as int,
                re0 as int,
                im0 as int,
                (max_iter - n - 1) as nat,
            ));
        }
        zr = next_zr;
        zi = next_zi;
        n = n + 1;
    }
}

/// A rescaled square is never negative.
proof fn lemma_fmul_self_nonneg(x: int)
    ensures
        fmul(x, x) >= 0,
{
    assert(x * x >= 0) by (nonlinear_arith);
    lemma_div_pos_is_pos(x * x, FP_SCALE as int);
}

/// A coordinate of magnitude at least 2 (in Q32.32) squares, rescaled, to at
/// least the escape threshold 4.
proof fn lemma_large_component_escapes(x: int)
    requires
        x >= ESCAPE_COMPONENT || x <= -ESCAPE_COMPONENT,
    ensures
        fmul(x, x) >= ESCAPE_THRESHOLD,
{
    assert(x * x >= 0x2_0000_0000int * 0x2_0000_0000int) by (nonlinear_arith)
        requires
            x >= 0x2_0000_0000 || x <= -0x2_0000_0000,
    ;
    lemma_div_is_ordered(0x2_0000_0000int * 0x2_0000_0000int, x * x, FP_SCALE as int);
    assert(0x2_0000_0000int * 0x2_0000_0000int / 0x1_0000_0000int == 0x4_0000_0000int);
}

/// The square of a bounded value, rescaled, is non-negative and bounded:
/// `|x| <= m` gives `0 <= fmul(x, x) <= m * m / FP_SCALE`.
proof fn lemma_fmul_self_bounds(x: int, m: int)
    requires
        -m <= x <= m,
    ensures
        0 <= fmul(x, x) <= m * m / (FP_SCALE as int),
{
    assert(0 <= x * x <= m * m) by (nonlinear_arith)
        requires
            -m <= x <= m,
    ;
    lemma_div_is_ordered(x * x, m * m, FP_SCALE as int);
    lemma_div_pos_is_pos(x * x, FP_SCALE as int);
}

/// A norm term below the escape threshold bounds its component:
/// `fmul(x, x) < 4` (in Q32.32) gives `|x| <= 2` (in Q32.32).
proof fn lemma_norm_term_bounds_component(x: int)
    requires
        fmul(x, x) < ESCAPE_THRESHOLD,
    ensures
        -2 * (FP_SCALE as int) <= x <= 2 * (FP_SCALE as int),
{
    let s = FP_SCALE as int;
    assert(x * x >= 0) by (nonlinear_arith);
    let q = (x * x) / s;
    assert(fmul(x, x) == q);
    lemma_fundamental_div_mod(x * x, s);
    lemma_mod_bound(x * x, s);
    assert(s * q <= s * (4 * s - 1)) by (nonlinear_arith)
        requires
            q <= 4 * s - 1,
            s >= 1,
    ;
    assert(x * x <= s * (4 * s - 1) + s - 1);
    assert(-2 * s <= x <= 2 * s) by (nonlinear_arith)
        requires
            x * x <= s * (4 * s - 1) + s - 1,
            s == 0x1_0000_0000,
    ;
}

/// A product of bounded values rescales to a bounded value:
/// `|a|, |b| <= m` gives `|fmul(a, b)| <= m * m / FP_SCALE`.
proof fn lemma_fmul_abs_bound(a: int, b: int, m: int)
    requires
        -m <= a <= m,
        -m <= b <= m,
        m >= 0,
    ensures
        -(m * m / (FP_SCALE as int)) <= fmul(a, b) <= m * m / (FP_SCALE as int),
{
    let s = FP_SCALE as int;
    assert(-(m * m) <= a * b <= m * m) by (nonlinear_arith)
        requires
            -m <= a <= m,
            -m <= b <= m,
            m >= 0,
    ;
    if a * b >= 0 {
        lemma_div_is_ordered(a * b, m * m, s);
        lemma_div_pos_is_pos(a * b, s);
    } else {
        lemma_div_is_ordered(-(a * b), m * m, s);
        lemma_div_pos_is_pos(-(a * b), s);
    }
}

/// The orbit that starts at the origin stays at the origin forever, so its
/// escape time is the full fuel: the origin never escapes.
pub proof fn lemma_escape_time_origin(fuel: nat)
    ensures
        escape_time(0, 0, 0, 0, fuel) == fuel,
    decreases fuel,
{
    assert(0int * 0int == 0) by (nonlinear_arith);
    assert(tdiv(0, FP_SCALE as int) == 0);
    assert(fmul(0, 0) == 0);
    assert(!has_escaped(0, 0));
    if fuel > 0 {
        assert(orbit_step_re(0, 0, 0) == 0);
        assert(orbit_step_im(0, 0, 0) == 0);
        lemma_escape_time_origin((fuel - 1) as nat);
    }
}

/// A point that has already escaped has escape time zero, whatever the fuel:
/// once the squared modulus is at least 4, no step is taken. In particular
/// the escape count never increases as a starting point moves further out
/// past the escape boundary: it is already zero everywhere out there.
pub proof fn lemma_escape_time_escaped(zr: int, zi: int, cr: int, ci: int, fuel: nat)
    requires
        has_escaped(zr, zi),
    ensures
        escape_time(zr, zi, cr, ci, fuel) == 0,
{
}

} // verus!
