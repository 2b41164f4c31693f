//! Fixed-point Mandelbrot escape-time evaluation.
//!
//! Every coordinate of the complex plane is a fixed-point number: an integer
//! holding the real value multiplied by [`SCALE`].  The orbit `z <- z^2 + c`
//! starts at `z = 0`; after every step the escape condition `|z|^2 > 4` is
//! tested (exactly: `zre^2 + zim^2 > 4 * SCALE^2` in fixed-point units), and
//! the step index at escape is the escape time.  Squaring a fixed-point value
//! divides the double-width product by `SCALE`, truncating toward zero, which
//! is the one place the evaluation rounds.

use vstd::prelude::*;

verus! {

use vstd::arithmetic::div_mod::lemma_div_is_ordered;
use vstd::arithmetic::div_mod::lemma_div_multiples_vanish;
use vstd::arithmetic::div_mod::lemma_div_pos_is_pos;
use vstd::arithmetic::div_mod::lemma_div_nonincreasing;

/// Fixed-point units per whole unit: a stored integer `v` stands for the
/// real number `v / SCALE`.
pub const SCALE: i64 = 1_000_000;

/// Iteration cap of the escape-time evaluation.
pub const ITER_LIMIT: u32 = 255;

/// Largest magnitude accepted for either component of `c` by `escape_time`,
/// chosen so that no intermediate product leaves `i128`.
pub const C_BOUND: i64 = 200_000_000_000_000_000;

/// Magnitude of `a`.
pub open spec fn iabs(a: int) -> int {
    if a >= 0 {
        a
    } else {
        -a
    }
}

/// Division truncating toward zero, as Rust's `/` computes it on integers.
pub open spec fn tdiv(a: int, b: int) -> int
    recommends
        b != 0,
{
    if (a >= 0) == (b >= 0) {
        iabs(a) / iabs(b)
    } else {
        -(iabs(a) / iabs(b))
    }
}

/// The orbit of `c`: `orbit(c, 0) == (0, 0)` and each step maps `z` to
/// `z^2 + c` in fixed-point arithmetic.
pub open spec fn orbit(cre: int, cim: int, k: nat) -> (int, int)
    decreases k,
{
    if k == 0 {
        (0, 0)
    } else {
        let prev = orbit(cre, cim, (k - 1) as nat);
        (tdiv(prev.0 * prev.0 - prev.1 * prev.1, SCALE as int) + cre,
        tdiv(2 * prev.0 * prev.1, SCALE as int) + cim)
    }
}

/// Whether the orbit of `c` satisfies the escape condition `|z|^2 > 4` right
/// after step `k` (the value tested after step `k` is `orbit(c, k + 1)`).
pub open spec fn escaped_at(cre: int, cim: int, k: nat) -> bool {
    let z = orbit(cre, cim, k + 1);
    z.0 * z.0 + z.1 * z.1 > 4 * (SCALE as int) * (SCALE as int)
}

/// The least step index `k` in `[from, limit)` with `escaped_at(c, k)`,
/// `None` if the orbit stays bounded through step `limit`.
pub open spec fn first_escape_from(cre: int, cim: int, from: nat, limit: nat) -> Option<nat>
    decreases limit - from,
{
    if from >= limit {
        None
    } else if escaped_at(cre, cim, from) {
        Some(from)
    } else {
        first_escape_from(cre, cim, from + 1, limit)
    }
}

/// The escape time of `c` under iteration cap `limit`.
pub open spec fn escape_time_spec(cre: int, cim: int, limit: nat) -> Option<nat> {
    first_escape_from(cre, cim, 0, limit)
}

proof fn lemma_first_escape_found(cre: int, cim: int, from: nat, k: nat, limit: nat)
    requires
        from <= k < limit,
        escaped_at(cre, cim, k),
        forall|j: nat| from <= j < k ==> !escaped_at(cre, cim, j),
    ensures
        first_escape_from(cre, cim, from, limit) == Some(k),
    decreases k - from,
{
    if from < k {
        assert(!escaped_at(cre, cim, from));
        lemma_first_escape_found(cre, cim, from + 1, k, limit);
    }
}

proof fn lemma_first_escape_missing(cre: int, cim: int, from: nat, limit: nat)
    requires
        forall|j: nat| from <= j < limit ==> !escaped_at(cre, cim, j),
    ensures
        first_escape_from(cre, cim, from, limit) is None,
    decreases limit - from,
{
    if from < limit {
        lemma_first_escape_missing(cre, cim, from + 1, limit);
    }
}

/// Bounds a product from bounds on its factors.
proof fn lemma_mul_bound(a: int, b: int, aa: int, bb: int)
    by (nonlinear_arith)
    requires
        -aa <= a <= aa,
        -bb <= b <= bb,
        0 <= aa,
        0 <= bb,
    ensures
        -(aa * bb) <= a * b <= aa * bb,
{
}

/// A square is never negative.
proof fn lemma_sq_nonneg(a: int)
    by (nonlinear_arith)
    ensures
        0 <= a * a,
{
}

/// From a bound on the sum of two squares, bounds on both roots.
proof fn lemma_sum_sq_bound(a: int, b: int, m: int)
    by (nonlinear_arith)
    requires
        a * a + b * b <= 4 * m * m,
        0 < m,
    ensures
        -2 * m <= a <= 2 * m,
        -2 * m <= b <= 2 * m,
{
}

/// Truncating division by a positive divisor shrinks magnitudes.
proof fn lemma_tdiv_bound(p: int, d: int, bound: int)
    requires
        1 <= d,
        0 <= bound,
        -bound <= p <= bound,
    ensures
        -(bound / d) <= tdiv(p, d) <= bound / d,
{
    lemma_div_pos_is_pos(iabs(p), d);
    lemma_div_is_ordered(iabs(p), bound, d);
    lemma_div_pos_is_pos(bound, d);
}

/// Divides a double-width product back down by `SCALE`, truncating toward
/// zero as the fixed-point model prescribes.
fn scale_down(p: i128) -> (r: i128)
    requires
        i128::MIN < p,
    ensures
        r == tdiv(p as int, SCALE as int),
{
    if p >= 0 {
        let q: u128 = (p as u128) / (SCALE as u128);
        proof {
            lemma_div_pos_is_pos(p as int, SCALE as int);
            lemma_div_nonincreasing(p as int, SCALE as int);
        }
        q as i128
    } else {
        let n: i128 = -p;
        let q: u128 = (n as u128) / (SCALE as u128);
        proof {
            lemma_div_pos_is_pos(n as int, SCALE as int);
            lemma_div_nonincreasing(n as int, SCALE as int);
        }
        -(q as i128)
    }
}

/// Truncating division of a fixed-point value by a nonzero fixed-point
/// divisor, as the viewport mapping divides by the zoom factor.
pub(crate) fn div_trunc(a: i128, b: i64) -> (r: i128)
    requires
        i128::MIN < a,
        b != 0,
    ensures
        r == tdiv(a as int, b as int),
{
    let an: u128 = if a >= 0 {
        a as u128
    } else {
        (-a) as u128
    };
    let bn: u128 = if b >= 0 {
        b as u128
    } else {
        (-(b as i128)) as u128
    };
    let q: u128 = an / bn;
    proof {
        lemma_div_pos_is_pos(an as int, bn as int);
        lemma_div_nonincreasing(an as int, bn as int);
    }
    if (a >= 0) == (b >= 0) {
        q as i128
    } else {
        -(q as i128)
    }
}

/// Escape-time evaluation of one fixed-point point `c = cre + cim * i`.
///
/// Returns `Some(k)` when the orbit of `c` first satisfies `|z|^2 > 4` after
/// step `k` (with `k < limit`), and `None` when it stays bounded through
/// `limit` steps; `c` itself is tested after the first step, as step 0.
#[verifier::loop_isolation(false)]
pub fn escape_time(cre: i64, cim: i64, limit: u32) -> (r: Option<u32>)
    requires
        -C_BOUND <= cre <= C_BOUND,
        -C_BOUND <= cim <= C_BOUND,
    ensures
        match r {
            Some(k) => escape_time_spec(cre as int, cim as int, limit as nat) == Some(k as nat)
                && k < limit,
            None => escape_time_spec(cre as int, cim as int, limit as nat) is None,
        },
{
    let ghost ci = cre as int;
    let ghost cj = cim as int;
    let ghost s = SCALE as int;
    let mut zre: i128 = 0;
    let mut zim: i128 = 0;
    let mut k: u32 = 0;
    while k < limit
        invariant
            -C_BOUND <= cre <= C_BOUND,
            -C_BOUND <= cim <= C_BOUND,
            k <= limit,
            zre as int == orbit(ci, cj, k as nat).0,
            zim as int == orbit(ci, cj, k as nat).1,
            (zre as int) * (zre as int) + (zim as int) * (zim as int) <= 4 * s * s,
            forall|j: nat| j < k ==> !escaped_at(ci, cj, j),
        decreases limit - k,
    {
        proof {
            lemma_sum_sq_bound(zre as int, zim as int, s);
            lemma_mul_bound(zre as int, zre as int, 2 * s, 2 * s);
            lemma_mul_bound(zim as int, zim as int, 2 * s, 2 * s);
            lemma_mul_bound(zre as int, zim as int, 2 * s, 2 * s);
            lemma_sq_nonneg(zre as int);
            lemma_sq_nonneg(zim as int);
        }
        let sq_re: i128 = zre * zre;
        let sq_im: i128 = zim * zim;
        let cross: i128 = zre * zim;
        proof {
            lemma_tdiv_bound(sq_re - sq_im, s, 4 * s * s);
            lemma_tdiv_bound(2 * cross, s, 8 * s * s);
            lemma_div_multiples_vanish(4 * s, s);
            lemma_div_multiples_vanish(8 * s, s);
        }
        let new_re: i128 = scale_down(sq_re - sq_im) + (cre as i128);
        let new_im: i128 = scale_down(2 * cross) + (cim as i128);
        proof {
            let nb = 8 * s + C_BOUND as int;
            lemma_mul_bound(new_re as int, new_re as int, nb, nb);
            lemma_mul_bound(new_im as int, new_im as int, nb, nb);
            vstd::arithmetic::mul::lemma_mul_is_associative(2, zre as int, zim as int);
            assert(orbit(ci, cj, (k + 1) as nat).0 == new_re as int);
            assert(orbit(ci, cj, (k + 1) as nat).1 == new_im as int);
        }
        let mag: i128 = new_re * new_re + new_im * new_im;
        if mag > 4 * (SCALE as i128) * (SCALE as i128) {
            proof {
                assert(escaped_at(ci, cj, k as nat));
                lemma_first_escape_found(ci, cj, 0, k as nat, limit as nat);
            }
            return Some(k);
        }
        proof {
            assert(!escaped_at(ci, cj, k as nat));
        }
        zre = new_re;
        zim = new_im;
        k = k + 1;
    }
    proof {
        lemma_first_escape_missing(ci, cj, 0, limit as nat);
    }
    None
}

} // verus!
