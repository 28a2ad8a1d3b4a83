//! Cross-function properties of the interaction logic.
//!
//! Each public proof function here states a property that relates several
//! operations of the library; the properties of a single function stand in
//! that function's own `ensures`.

use vstd::prelude::*;

use crate::interaction::crosses_threshold;
use crate::interaction::dilation_noop;
use crate::interaction::spec_overflow_after;
use crate::interaction::spec_pivot_freq;
use crate::interaction::spec_requested;
use crate::interaction::spec_shift;
use crate::interaction::spec_shift_threshold;
use crate::interaction::spec_zoomed_center;
use crate::rat::Ratio;
use crate::rat::lemma_mul_pos;
use crate::rat::lemma_rat_eq_trans;
use crate::rat::rat_abs;
use crate::rat::rat_add;
use crate::rat::rat_div;
use crate::rat::rat_eq;
use crate::rat::rat_le;
use crate::rat::rat_lt;
use crate::rat::rat_mul;
use crate::rat::rat_neg;
use crate::rat::rat_of_int;
use crate::rat::rat_one;
use crate::rat::rat_sub;
use crate::rat::rat_wf;
use crate::rat::rat_zero;
use crate::view::MAX_ZOOM;
use crate::view::spec_center_limit;
use crate::view::spec_clamp_center;
use crate::view::spec_clamp_zoom;

verus! {

/// A dilation that denotes exactly one leaves the clamped zoom equal (as a
/// number) to the old zoom, so the whole zoom operation is a no-op.
pub proof fn lemma_unit_dilation_noop(z: Ratio, d: Ratio)
    requires
        rat_wf(z),
        rat_wf(d),
        rat_eq(d, rat_one()),
        rat_le(rat_one(), z),
        rat_le(z, rat_of_int(MAX_ZOOM as int)),
    ensures
        dilation_noop(z, d),
{
    let m = rat_mul(d, z);
    assert(d.n == d.d);
    assert(d.n * z.d <= d.n * z.n) by (nonlinear_arith)
        requires
            d.n > 0,
            z.d <= z.n,
    ;
    assert(d.d * z.d == d.n * z.d);
    assert(d.n * z.n <= 128 * (d.d * z.d)) by (nonlinear_arith)
        requires
            d.n == d.d,
            d.n > 0,
            z.n <= 128 * z.d,
    ;
    assert(spec_clamp_zoom(m) == m);
    assert((d.n * z.n) * z.d == z.n * (d.d * z.d)) by (nonlinear_arith)
        requires
            d.n == d.d,
    ;
}

/// Once the accumulator has reached the threshold (but not twice it), the
/// single emitted shift leaves its magnitude strictly below the threshold.
pub proof fn lemma_threshold_emission(ov1: Ratio)
    requires
        rat_wf(ov1),
        crosses_threshold(ov1),
        rat_lt(rat_abs(ov1), rat_add(spec_shift_threshold(), spec_shift_threshold())),
    ensures
        rat_wf(rat_sub(ov1, spec_shift(ov1))),
        rat_lt(rat_abs(rat_sub(ov1, spec_shift(ov1))), spec_shift_threshold()),
{
    let after = rat_sub(ov1, spec_shift(ov1));
    assert(rat_add(spec_shift_threshold(), spec_shift_threshold()) == (Ratio { n: 8, d: 16 }));
    if ov1.n >= 0 {
        assert(ov1.n * 16 < 8 * ov1.d);
        assert(after == (Ratio { n: ov1.n * 4 - ov1.d, d: ov1.d * 4 }));
        assert(after.n >= 0);
        assert(rat_abs(after) == after);
        assert(after.n * 4 < 1 * after.d) by (nonlinear_arith)
            requires
                after.n == ov1.n * 4 - ov1.d,
                after.d == ov1.d * 4,
                ov1.n * 16 < 8 * ov1.d,
        ;
    } else {
        assert((-ov1.n) * 16 < 8 * ov1.d);
        assert(after == (Ratio { n: ov1.n * 4 + ov1.d, d: ov1.d * 4 }));
        assert(after.n <= 0);
        if after.n >= 0 {
            assert(rat_abs(after) == after);
            assert(after.n * 4 < 1 * after.d) by (nonlinear_arith)
                requires
                    after.n == 0,
                    after.d == ov1.d * 4,
                    ov1.d > 0,
            ;
        } else {
            assert(rat_abs(after) == rat_neg(after));
            assert((-after.n) * 4 < 1 * after.d) by (nonlinear_arith)
                requires
                    after.n == ov1.n * 4 + ov1.d,
                    after.d == ov1.d * 4,
                    (-ov1.n) * 16 < 8 * ov1.d,
            ;
        }
    }
}

/// One below-threshold drag step: the center the view commits and the
/// accumulator it leaves behind.
pub open spec fn pan_step(c: Ratio, z: Ratio, ov: Ratio, dx: int, w: int) -> (Ratio, Ratio) {
    (
        spec_clamp_center(spec_requested(c, z, dx, w), z),
        spec_overflow_after(c, z, ov, dx, w),
    )
}

/// Center and accumulator after a sequence of below-threshold drag steps.
pub open spec fn run_pan_steps(c: Ratio, z: Ratio, ov: Ratio, dxs: Seq<int>, w: int) -> (
    Ratio,
    Ratio,
)
    decreases dxs.len(),
{
    if dxs.len() <= 0 {
        (c, ov)
    } else {
        let s = pan_step(c, z, ov, dxs[0], w);
        run_pan_steps(s.0, z, s.1, dxs.subrange(1, dxs.len() as int), w)
    }
}

/// The sum, over a sequence of drag steps, of the part of each requested
/// pan that the clamp swallowed.
pub open spec fn pan_debt(c: Ratio, z: Ratio, dxs: Seq<int>, w: int) -> Ratio
    decreases dxs.len(),
{
    if dxs.len() <= 0 {
        rat_zero()
    } else {
        let req = spec_requested(c, z, dxs[0], w);
        let cl = spec_clamp_center(req, z);
        rat_add(rat_sub(req, cl), pan_debt(cl, z, dxs.subrange(1, dxs.len() as int), w))
    }
}

/// Associativity of rational addition, up to rational equality.
#[verifier::rlimit(50)]
proof fn lemma_add_assoc(a: Ratio, b: Ratio, c: Ratio)
    ensures
        rat_eq(rat_add(rat_add(a, b), c), rat_add(a, rat_add(b, c))),
{
    let x = rat_add(rat_add(a, b), c);
    let y = rat_add(a, rat_add(b, c));
    let u = a.n * (b.d * c.d) + b.n * (a.d * c.d) + c.n * (a.d * b.d);
    assert(x.n == u) by (nonlinear_arith)
        requires
            x.n == (a.n * b.d + b.n * a.d) * c.d + c.n * (a.d * b.d),
            u == a.n * (b.d * c.d) + b.n * (a.d * c.d) + c.n * (a.d * b.d),
    ;
    assert(y.n == u) by (nonlinear_arith)
        requires
            y.n == a.n * (b.d * c.d) + (b.n * c.d + c.n * b.d) * a.d,
            u == a.n * (b.d * c.d) + b.n * (a.d * c.d) + c.n * (a.d * b.d),
    ;
    assert(x.d == y.d) by (nonlinear_arith)
        requires
            x.d == (a.d * b.d) * c.d,
            y.d == a.d * (b.d * c.d),
    ;
}

/// Replacing one summand by an equal fraction keeps the sum equal.
#[verifier::rlimit(50)]
proof fn lemma_add_eq_compat(a: Ratio, b: Ratio, b2: Ratio)
    requires
        rat_eq(b, b2),
    ensures
        rat_eq(rat_add(a, b), rat_add(a, b2)),
{
    let l = rat_add(a, b);
    let r = rat_add(a, b2);
    assert(l.n * r.d == r.n * l.d) by (nonlinear_arith)
        requires
            b.n * b2.d == b2.n * b.d,
            l.n == a.n * b.d + b.n * a.d,
            l.d == a.d * b.d,
            r.n == a.n * b2.d + b2.n * a.d,
            r.d == a.d * b2.d,
    ;
}

/// Overflow conservation: across any sequence of below-threshold drag
/// steps, the accumulator grows by exactly the sum of the per-step
/// clamped-out remainders.
pub proof fn lemma_overflow_conservation(c: Ratio, z: Ratio, ov: Ratio, dxs: Seq<int>, w: int)
    requires
        rat_wf(c),
        rat_wf(z),
        rat_wf(ov),
        z.n > 0,
        w >= 1,
    ensures
        rat_wf(pan_debt(c, z, dxs, w)),
        rat_wf(run_pan_steps(c, z, ov, dxs, w).1),
        rat_eq(run_pan_steps(c, z, ov, dxs, w).1, rat_add(ov, pan_debt(c, z, dxs, w))),
    decreases dxs.len(),
{
    if dxs.len() <= 0 {
        assert(ov.n * (ov.d * 1) == (ov.n * 1 + 0 * ov.d) * ov.d) by (nonlinear_arith);
    } else {
        let rest = dxs.subrange(1, dxs.len() as int);
        let req = spec_requested(c, z, dxs[0], w);
        let cl = spec_clamp_center(req, z);
        let delta = rat_sub(req, cl);
        let ov1 = rat_add(ov, delta);
        lemma_mul_pos(z.n, w);
        lemma_mul_pos(c.d, z.n * w);
        assert(rat_wf(req));
        assert(rat_wf(cl));
        lemma_mul_pos(req.d, cl.d);
        assert(rat_wf(delta));
        lemma_mul_pos(ov.d, delta.d);
        assert(rat_wf(ov1));
        lemma_overflow_conservation(cl, z, ov1, rest, w);
        let debt_rest = pan_debt(cl, z, rest, w);
        let run_tail = run_pan_steps(cl, z, ov1, rest, w);
        assert(run_pan_steps(c, z, ov, dxs, w) == run_tail);
        assert(pan_debt(c, z, dxs, w) == rat_add(delta, debt_rest));
        lemma_add_assoc(ov, delta, debt_rest);
        lemma_mul_pos(ov1.d, debt_rest.d);
        lemma_mul_pos(delta.d, debt_rest.d);
        lemma_mul_pos(ov.d, rat_add(delta, debt_rest).d);
        lemma_rat_eq_trans(
            run_tail.1,
            rat_add(ov1, debt_rest),
            rat_add(ov, rat_add(delta, debt_rest)),
        );
        assert(rat_add(ov, pan_debt(c, z, dxs, w)) == rat_add(ov, rat_add(delta, debt_rest)));
    }
}

/// The frequency under pixel `p` splits into the center plus a term that
/// depends only on the zoom and the pixel geometry:
/// `pivot_freq(c, z) = c + ((2p - w) * z.d) / (z.n * w)`.
#[verifier::rlimit(50)]
proof fn lemma_pivot_split(c: Ratio, z: Ratio, p: int, w: int)
    requires
        rat_wf(c),
        rat_wf(z),
        z.n > 0,
        w >= 1,
    ensures
        rat_eq(
            spec_pivot_freq(c, z, p, w),
            rat_add(c, (Ratio { n: (2 * p - w) * z.d, d: z.n * w })),
        ),
{
    let x = spec_pivot_freq(c, z, p, w);
    let y = rat_add(c, (Ratio { n: (2 * p - w) * z.d, d: z.n * w }));
    assert((c.n * (z.n * w) + (p * (2 * z.d)) * c.d) * z.n == (c.n * (z.n * w)) * z.n + ((p * (2
        * z.d)) * c.d) * z.n) by (nonlinear_arith);
    assert(((p * (2 * z.d)) * c.d) * z.n - z.d * (c.d * (z.n * w)) == (((2 * p - w) * z.d) * c.d)
        * z.n) by (nonlinear_arith);
    assert((c.n * (z.n * w) + ((2 * p - w) * z.d) * c.d) * z.n == (c.n * (z.n * w)) * z.n + (((2
        * p - w) * z.d) * c.d) * z.n) by (nonlinear_arith);
    assert(x.n == y.n * z.n);
    assert(x.d == y.d * z.n);
    assert(x.n * y.d == y.n * x.d) by (nonlinear_arith)
        requires
            x.n == y.n * z.n,
            x.d == y.d * z.n,
    ;
}

/// The geometry term of the zoomed window is the old geometry term divided
/// by the dilation.
#[verifier::rlimit(50)]
proof fn lemma_geometry_scales(z: Ratio, d: Ratio, p: int, w: int)
    requires
        d.n > 0,
    ensures
        rat_eq(
            (Ratio { n: (2 * p - w) * (d.d * z.d), d: (d.n * z.n) * w }),
            rat_div((Ratio { n: (2 * p - w) * z.d, d: z.n * w }), d),
        ),
{
    let x = Ratio { n: (2 * p - w) * (d.d * z.d), d: (d.n * z.n) * w };
    let y = rat_div((Ratio { n: (2 * p - w) * z.d, d: z.n * w }), d);
    assert(x.n * y.d == y.n * x.d) by (nonlinear_arith)
        requires
            y.n == ((2 * p - w) * z.d) * d.d,
            y.d == (z.n * w) * d.n,
            x.n == (2 * p - w) * (d.d * z.d),
            x.d == (d.n * z.n) * w,
    ;
}

/// Dividing a sum by `e` is the sum of the quotients.
#[verifier::rlimit(50)]
proof fn lemma_div_add_dist(x: Ratio, y: Ratio, e: Ratio)
    requires
        e.n > 0,
    ensures
        rat_eq(rat_add(rat_div(x, e), rat_div(y, e)), rat_div(rat_add(x, y), e)),
{
    let l = rat_add(rat_div(x, e), rat_div(y, e));
    let r = rat_div(rat_add(x, y), e);
    assert(l.n == r.n * e.n) by (nonlinear_arith)
        requires
            l.n == (x.n * e.d) * (y.d * e.n) + (y.n * e.d) * (x.d * e.n),
            r.n == (x.n * y.d + y.n * x.d) * e.d,
    ;
    assert(l.d == r.d * e.n) by (nonlinear_arith)
        requires
            l.d == (x.d * e.n) * (y.d * e.n),
            r.d == (x.d * y.d) * e.n,
    ;
    assert(l.n * r.d == r.n * l.d) by (nonlinear_arith)
        requires
            l.n == r.n * e.n,
            l.d == r.d * e.n,
    ;
}

/// Replacing the dividend by an equal fraction keeps the quotient equal.
#[verifier::rlimit(50)]
proof fn lemma_div_eq_compat(x: Ratio, y: Ratio, e: Ratio)
    requires
        rat_eq(x, y),
        e.n > 0,
    ensures
        rat_eq(rat_div(x, e), rat_div(y, e)),
{
    let l = rat_div(x, e);
    let r = rat_div(y, e);
    assert(l.n * r.d == r.n * l.d) by (nonlinear_arith)
        requires
            x.n * y.d == y.n * x.d,
            l.n == x.n * e.d,
            l.d == x.d * e.n,
            r.n == y.n * e.d,
            r.d == y.d * e.n,
    ;
}

/// `(d - 1) * q + q` equals `d * q`.
#[verifier::rlimit(50)]
proof fn lemma_dilation_absorb(d: Ratio, q: Ratio)
    ensures
        rat_eq(rat_add(rat_mul(rat_sub(d, rat_one()), q), q), rat_mul(d, q)),
{
    let l = rat_add(rat_mul(rat_sub(d, rat_one()), q), q);
    let r = rat_mul(d, q);
    assert(l.n * r.d == r.n * l.d) by (nonlinear_arith)
        requires
            l.n == ((d.n - d.d) * q.n) * q.d + q.n * (d.d * q.d),
            l.d == (d.d * q.d) * q.d,
            r.n == d.n * q.n,
            r.d == d.d * q.d,
    ;
}

/// `(d * q) / d` equals `q`.
#[verifier::rlimit(50)]
proof fn lemma_div_mul_cancel(d: Ratio, q: Ratio)
    requires
        d.n > 0,
    ensures
        rat_eq(rat_div(rat_mul(d, q), d), q),
{
    let l = rat_div(rat_mul(d, q), d);
    assert(l.n * q.d == q.n * l.d) by (nonlinear_arith)
        requires
            l.n == (d.n * q.n) * d.d,
            l.d == (d.d * q.d) * d.n,
    ;
}

/// Pivot preservation: when neither the new zoom nor the recomputed center
/// is clamped, the frequency under the pivot pixel after the dilation
/// denotes exactly the frequency that was under it before.
pub proof fn lemma_pivot_preserved(c: Ratio, z: Ratio, d: Ratio, p: int, w: int)
    requires
        rat_wf(c),
        rat_wf(z),
        rat_wf(d),
        rat_le(rat_one(), z),
        rat_lt(rat_zero(), d),
        w >= 1,
        rat_le(rat_one(), rat_mul(d, z)),
        rat_le(rat_mul(d, z), rat_of_int(MAX_ZOOM as int)),
        rat_le(rat_neg(spec_center_limit(rat_mul(d, z))), spec_zoomed_center(c, z, d, p, w)),
        rat_le(spec_zoomed_center(c, z, d, p, w), spec_center_limit(rat_mul(d, z))),
    ensures
        spec_clamp_zoom(rat_mul(d, z)) == rat_mul(d, z),
        spec_clamp_center(spec_zoomed_center(c, z, d, p, w), rat_mul(d, z)) == spec_zoomed_center(
            c,
            z,
            d,
            p,
            w,
        ),
        rat_eq(
            spec_pivot_freq(spec_zoomed_center(c, z, d, p, w), rat_mul(d, z), p, w),
            spec_pivot_freq(c, z, p, w),
        ),
{
    let z2 = rat_mul(d, z);
    let pf = spec_pivot_freq(c, z, p, w);
    let k1 = Ratio { n: (2 * p - w) * z.d, d: z.n * w };
    let k2 = Ratio { n: (2 * p - w) * (d.d * z.d), d: (d.n * z.n) * w };
    let dm1 = rat_sub(d, rat_one());
    let x = rat_add(rat_mul(dm1, pf), c);
    let cc = spec_zoomed_center(c, z, d, p, w);
    let lhs = spec_pivot_freq(cc, z2, p, w);

    // positivity of all denominators on the chain
    lemma_mul_pos(z.n, w);
    lemma_mul_pos(c.d, z.n * w);
    lemma_mul_pos(c.d * (z.n * w), z.n);
    assert(rat_wf(pf));
    lemma_mul_pos(d.d, z.d);
    lemma_mul_pos(d.d, pf.d);
    lemma_mul_pos(d.d * pf.d, c.d);
    assert(rat_wf(x));
    lemma_mul_pos(x.d, d.n);
    assert(rat_wf(cc));
    lemma_mul_pos(d.n, z.n);
    lemma_mul_pos(d.n * z.n, w);
    assert(rat_wf(k2));
    lemma_mul_pos(cc.d, (d.n * z.n) * w);
    lemma_mul_pos(cc.d * ((d.n * z.n) * w), d.n * z.n);
    lemma_mul_pos(z.n * w, d.n);
    lemma_mul_pos(cc.d, (z.n * w) * d.n);
    lemma_mul_pos(x.d, z.n * w);
    lemma_mul_pos(x.d * (z.n * w), d.n);
    lemma_mul_pos(d.d * pf.d, d.n);
    lemma_mul_pos(c.d, k1.d);
    lemma_mul_pos(dm1.d, pf.d);
    lemma_mul_pos(dm1.d * pf.d, c.d * k1.d);
    lemma_mul_pos(dm1.d * pf.d, pf.d);

    // the frequency under the pivot after the zoom, split off the center
    lemma_pivot_split(cc, z2, p, w);
    assert(rat_eq(lhs, rat_add(cc, k2)));

    // the geometry term after the zoom is the old one divided by d
    lemma_geometry_scales(z, d, p, w);
    lemma_add_eq_compat(cc, k2, rat_div(k1, d));
    assert(rat_eq(rat_add(cc, k2), rat_add(cc, rat_div(k1, d))));

    // fold the two quotients into one
    assert(cc == rat_div(x, d));
    lemma_div_add_dist(x, k1, d);
    assert(rat_eq(rat_add(cc, rat_div(k1, d)), rat_div(rat_add(x, k1), d)));

    // (d-1)*pf + (c + k1)  ==  (d-1)*pf + pf  ==  d*pf
    lemma_add_assoc(rat_mul(dm1, pf), c, k1);
    lemma_pivot_split(c, z, p, w);
    lemma_add_eq_compat(rat_mul(dm1, pf), rat_add(c, k1), pf);
    lemma_dilation_absorb(d, pf);
    lemma_mul_pos(dm1.d * pf.d, rat_add(c, k1).d);
    lemma_rat_eq_trans(
        rat_add(x, k1),
        rat_add(rat_mul(dm1, pf), rat_add(c, k1)),
        rat_add(rat_mul(dm1, pf), pf),
    );
    lemma_rat_eq_trans(
        rat_add(x, k1),
        rat_add(rat_mul(dm1, pf), pf),
        rat_mul(d, pf),
    );

    // divide through by d and cancel
    lemma_div_eq_compat(rat_add(x, k1), rat_mul(d, pf), d);
    lemma_div_mul_cancel(d, pf);
    lemma_mul_pos(rat_add(x, k1).d, d.n);
    lemma_mul_pos(rat_mul(d, pf).d, d.n);
    lemma_rat_eq_trans(
        rat_div(rat_add(x, k1), d),
        rat_div(rat_mul(d, pf), d),
        pf,
    );

    // chain everything back to the frequency under the pivot before
    lemma_rat_eq_trans(lhs, rat_add(cc, k2), rat_add(cc, rat_div(k1, d)));
    lemma_rat_eq_trans(lhs, rat_add(cc, rat_div(k1, d)), rat_div(rat_add(x, k1), d));
    lemma_rat_eq_trans(lhs, rat_div(rat_add(x, k1), d), pf);
}

} // verus!
