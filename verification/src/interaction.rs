//! Gesture interpretation: zoom rescaling, drag panning and the retune
//! overflow accumulator.
//!
//! A pinch (or wheel) gesture carries a dilation factor and a pivot pixel;
//! the zoom level is rescaled and the center frequency recomputed so that
//! the frequency under the pivot stays fixed.  A drag gesture carries a
//! pixel delta; it pans the window within the clamped range, and the part
//! of the pan that the clamp swallowed accumulates until it reaches a
//! threshold, at which point a discrete retune request is emitted instead
//! of a view shift.

use vstd::prelude::*;

use crate::rat::COMPONENT_BOUND;
use crate::rat::Rat;
use crate::rat::Ratio;
use crate::rat::lemma_mul_bound;
use crate::rat::lemma_mul_pos;
use crate::rat::rat_abs;
use crate::rat::rat_add;
use crate::rat::rat_bounded;
use crate::rat::rat_div;
use crate::rat::rat_eq;
use crate::rat::rat_le;
use crate::rat::rat_lt;
use crate::rat::rat_mul;
use crate::rat::rat_neg;
use crate::rat::rat_of_int;
use crate::rat::rat_one;
use crate::rat::rat_recip;
use crate::rat::rat_sub;
use crate::rat::rat_zero;
use crate::view::MAX_ZOOM;
use crate::view::ViewState;
use crate::view::clamp_center_frequency;
use crate::view::spec_clamp_center;
use crate::view::spec_clamp_zoom;
use crate::view::spec_units_per_px;

verus! {

/// An exact result left the storable component range, so the operation was
/// not applied.
#[derive(Clone, Copy, PartialEq, Eq, Structural, Debug)]
pub struct RangeError;

/// A recognized gesture, as delivered by the host's pointer tracking.
pub enum Gesture {
    /// Single-pointer drag by `dx` pixels.
    Drag { dx: i32 },
    /// Two-pointer pinch: pivot pixel and multiplicative zoom factor.
    Pinch { center_px: i32, dilation: Rat },
}

/// What a processed gesture asks of the host.
#[derive(Clone, Copy, PartialEq, Eq, Structural, Debug)]
pub enum GestureEffect {
    /// The view moved (or stayed put at a clamp bound); nothing to do.
    Panned,
    /// The view kept its clamped position; the hardware should retune by
    /// `shift` normalized frequency units.
    Retune { shift: Rat },
    /// The zoom gesture was applied (possibly as a no-op at a zoom bound).
    Zoomed,
}

/// The frequency value currently under pixel `p` of a surface `w` pixels
/// wide: `center + p * units_per_px - 1/zoom`.
pub open spec fn spec_pivot_freq(c: Ratio, z: Ratio, p: int, w: int) -> Ratio {
    rat_sub(rat_add(c, rat_mul(rat_of_int(p), spec_units_per_px(z, w))), rat_recip(z))
}

/// The center frequency that keeps the frequency under the pivot fixed
/// after multiplying the zoom by `d`:
/// `((d - 1) * pivot_freq + center) / d`.
pub open spec fn spec_zoomed_center(c: Ratio, z: Ratio, d: Ratio, p: int, w: int) -> Ratio {
    rat_div(rat_add(rat_mul(rat_sub(d, rat_one()), spec_pivot_freq(c, z, p, w)), c), d)
}

/// The dilation leaves the clamped zoom where it was (already at a bound,
/// or a dilation of exactly one): the whole operation is a no-op.
pub open spec fn dilation_noop(z: Ratio, d: Ratio) -> bool {
    rat_eq(spec_clamp_zoom(rat_mul(d, z)), z)
}

/// All exact intermediate values of the zoom computation have storable
/// components.
pub open spec fn dilation_fits(c: Ratio, z: Ratio, d: Ratio, p: int, w: int) -> bool {
    &&& rat_bounded(spec_clamp_zoom(rat_mul(d, z)))
    &&& rat_bounded(spec_pivot_freq(c, z, p, w))
    &&& rat_bounded(spec_zoomed_center(c, z, d, p, w))
}

/// The window shows the same zoom and center as before.
pub open spec fn view_unchanged(v0: ViewState, v1: ViewState) -> bool {
    &&& v1.spec_zoom() == v0.spec_zoom()
    &&& v1.spec_center() == v0.spec_center()
}

/// The window `v1` is `v0` rescaled by `d` about pivot pixel `p` on a
/// surface `w` pixels wide: zoom multiplied and clamped, center recomputed
/// to preserve the frequency under the pivot and clamped for the new zoom.
pub open spec fn dilation_applied(v0: ViewState, v1: ViewState, d: Ratio, p: int, w: int) -> bool {
    let z2 = spec_clamp_zoom(rat_mul(d, v0.spec_zoom()));
    &&& v1.spec_zoom() == z2
    &&& v1.spec_center() == spec_clamp_center(
        spec_zoomed_center(v0.spec_center(), v0.spec_zoom(), d, p, w),
        z2,
    )
}

/// Rescales the window by the dilation factor about the pivot pixel.
///
/// The new zoom is the old one multiplied by `dilation` and clamped to
/// `[1, 128]`; if that leaves the zoom unchanged the whole operation is a
/// no-op.  Otherwise the center frequency is recomputed so that the
/// frequency under the pivot pixel is preserved, then clamped to the range
/// valid for the new zoom, and both are committed together.  `Err` exactly
/// when an exact intermediate value cannot be stored; the view is then
/// unchanged.
pub fn apply_dilation(view: &mut ViewState, dilation: &Rat, pivot_px: i32, width: u32) -> (r:
    Result<(), RangeError>)
    requires
        old(view).inv(),
        dilation.wf(),
        rat_lt(rat_zero(), dilation@),
        width >= 1,
    ensures
        final(view).inv(),
        r is Ok <==> dilation_noop(old(view).spec_zoom(), dilation@) || dilation_fits(
            old(view).spec_center(),
            old(view).spec_zoom(),
            dilation@,
            pivot_px as int,
            width as int,
        ),
        dilation_noop(old(view).spec_zoom(), dilation@) || r is Err ==> view_unchanged(
            *old(view),
            *final(view),
        ),
        !dilation_noop(old(view).spec_zoom(), dilation@) && r is Ok ==> dilation_applied(
            *old(view),
            *final(view),
            dilation@,
            pivot_px as int,
            width as int,
        ),
{
    let z = view.get_zoom();
    let c = view.get_center_frequency();
    let ghost zg = z@;
    let ghost cg = c@;
    let ghost dg = dilation@;
    let ghost pg = pivot_px as int;
    let ghost wg = width as int;

    proof {
        let b = COMPONENT_BOUND as int;
        lemma_mul_bound(dg.n, zg.n, b, b);
        lemma_mul_bound(dg.d, zg.d, b, b);
        lemma_mul_pos(dg.d, zg.d);
    }
    let zr_n: i128 = (dilation.num() as i128) * (z.num() as i128);
    let zr_d: i128 = (dilation.den() as i128) * (z.den() as i128);

    let new_zoom: Rat;
    if zr_n < zr_d {
        // dilation * zoom < 1: clamped up to 1
        if z.num() == z.den() {
            return Ok(());
        }
        new_zoom = Rat::one();
    } else if 128 * zr_d < zr_n {
        // dilation * zoom > 128: clamped down to 128
        if z.num() == 128 * z.den() {
            return Ok(());
        }
        new_zoom = Rat::from_int(MAX_ZOOM);
    } else {
        // clamp leaves dilation * zoom unchanged
        proof {
            let b = COMPONENT_BOUND as int;
            lemma_mul_bound(dg.n * zg.n, zg.d, 0x4000_0000_0000_0000, b);
            lemma_mul_bound(zg.n, dg.d * zg.d, b, 0x4000_0000_0000_0000);
        }
        if zr_n * (z.den() as i128) == (z.num() as i128) * zr_d {
            return Ok(());
        }
        match crate::rat::checked(zr_n, zr_d) {
            Some(q) => { new_zoom = q; },
            None => { return Err(RangeError) },
        }
    }

    // Frequency under the pivot: pivot_freq = center + pivot * units_per_px - 1/zoom.
    proof {
        let b = COMPONENT_BOUND as int;
        lemma_mul_bound(zg.n, wg, 0x8000_0000, 0x1_0000_0000);
        lemma_mul_pos(zg.n, wg);
        lemma_mul_bound(pg, 2 * zg.d, 0x8000_0000, 0x1_0000_0000);
        lemma_mul_bound(cg.n, zg.n * wg, 0x8000_0000, 0x8000_0000_0000_0000);
        lemma_mul_bound(pg * (2 * zg.d), cg.d, 0x8000_0000_0000_0000, 0x8000_0000);
        lemma_mul_bound(
            cg.n * (zg.n * wg) + (pg * (2 * zg.d)) * cg.d,
            zg.n,
            0x8000_0000_0000_0000_0000_0000,
            0x8000_0000,
        );
        lemma_mul_bound(cg.d, zg.n * wg, 0x8000_0000, 0x8000_0000_0000_0000);
        lemma_mul_pos(cg.d, zg.n * wg);
        lemma_mul_bound(
            zg.d,
            cg.d * (zg.n * wg),
            0x8000_0000,
            0x4000_0000_0000_0000_0000_0000,
        );
        lemma_mul_bound(
            cg.d * (zg.n * wg),
            zg.n,
            0x4000_0000_0000_0000_0000_0000,
            0x8000_0000,
        );
        lemma_mul_pos(cg.d * (zg.n * wg), zg.n);
    }
    let zn: i128 = z.num() as i128;
    let zd: i128 = z.den() as i128;
    let cn: i128 = c.num() as i128;
    let cd: i128 = c.den() as i128;
    let px: i128 = pivot_px as i128;
    let w: i128 = width as i128;
    let inner: i128 = zn * w;
    let pf_n: i128 = (cn * inner + (px * (2 * zd)) * cd) * zn - zd * (cd * inner);
    let pf_d: i128 = (cd * inner) * zn;
    proof {
        assert(pf_n as int == spec_pivot_freq(cg, zg, pg, wg).n);
        assert(pf_d as int == spec_pivot_freq(cg, zg, pg, wg).d);
    }
    let pf: Rat = match crate::rat::checked(pf_n, pf_d) {
        Some(q) => q,
        None => { return Err(RangeError) },
    };

    // New center: ((dilation - 1) * pivot_freq + center) / dilation.
    proof {
        let b = COMPONENT_BOUND as int;
        lemma_mul_bound(dg.n - dg.d, pf@.n, 0x1_0000_0000, b);
        lemma_mul_bound((dg.n - dg.d) * pf@.n, cg.d, 0x8000_0000_0000_0000, b);
        lemma_mul_bound(dg.d, pf@.d, b, b);
        lemma_mul_pos(dg.d, pf@.d);
        lemma_mul_bound(cg.n, dg.d * pf@.d, b, 0x4000_0000_0000_0000);
        lemma_mul_bound(dg.d * pf@.d, cg.d, 0x4000_0000_0000_0000, b);
        lemma_mul_pos(dg.d * pf@.d, cg.d);
        lemma_mul_bound(
            ((dg.n - dg.d) * pf@.n) * cg.d + cg.n * (dg.d * pf@.d),
            dg.d,
            0x8000_0000_0000_0000_0000_0000,
            0x8000_0000,
        );
        lemma_mul_bound(
            (dg.d * pf@.d) * cg.d,
            dg.n,
            0x8000_0000_0000_0000_0000_0000,
            0x8000_0000,
        );
        lemma_mul_pos((dg.d * pf@.d) * cg.d, dg.n);
    }
    let dn: i64 = dilation.num();
    let dd: i64 = dilation.den();
    let t2d: i128 = (dd as i128) * (pf.den() as i128);
    let t3n: i128 = (((dn - dd) as i128) * (pf.num() as i128)) * cd + cn * t2d;
    let t3d: i128 = t2d * cd;
    let zc_n: i128 = t3n * (dd as i128);
    let zc_d: i128 = t3d * (dn as i128);
    proof {
        assert(zc_n as int == spec_zoomed_center(cg, zg, dg, pg, wg).n);
        assert(zc_d as int == spec_zoomed_center(cg, zg, dg, pg, wg).d);
    }
    let zc: Rat = match crate::rat::checked(zc_n, zc_d) {
        Some(q) => q,
        None => { return Err(RangeError) },
    };

    let clamped = clamp_center_frequency(&zc, &new_zoom);
    view.commit(new_zoom, clamped);
    Ok(())
}

/// The pan destination a drag asks for, before clamping:
/// `center - dx * units_per_px` (dragging right moves the window left).
pub open spec fn spec_requested(c: Ratio, z: Ratio, dx: int, w: int) -> Ratio {
    rat_sub(c, rat_mul(rat_of_int(dx), spec_units_per_px(z, w)))
}

/// Accumulated pan debt at which a discrete retune is emitted: a quarter
/// of a normalized frequency unit.
pub open spec fn spec_shift_threshold() -> Ratio {
    Ratio { n: 1, d: 4 }
}

/// The overflow accumulator after one drag step: the old value plus the
/// part of the requested pan that the clamp swallowed.
pub open spec fn spec_overflow_after(c: Ratio, z: Ratio, ov: Ratio, dx: int, w: int) -> Ratio {
    let req = spec_requested(c, z, dx, w);
    rat_add(ov, rat_sub(req, spec_clamp_center(req, z)))
}

/// The accumulator has reached the threshold in magnitude.
pub open spec fn crosses_threshold(ov1: Ratio) -> bool {
    rat_le(spec_shift_threshold(), rat_abs(ov1))
}

/// The emitted retune shift: the threshold with the accumulator's sign.
pub open spec fn spec_shift(ov1: Ratio) -> Ratio {
    if ov1.n >= 0 {
        spec_shift_threshold()
    } else {
        rat_neg(spec_shift_threshold())
    }
}

/// All exact intermediate values of the drag computation have storable
/// components.
pub open spec fn drag_fits(c: Ratio, z: Ratio, ov: Ratio, dx: int, w: int) -> bool {
    let req = spec_requested(c, z, dx, w);
    let ov1 = spec_overflow_after(c, z, ov, dx, w);
    &&& rat_bounded(req)
    &&& if crosses_threshold(ov1) {
        rat_bounded(rat_sub(ov1, spec_shift(ov1)))
    } else {
        rat_bounded(ov1)
    }
}

/// A gesture the controller can process: a pinch must carry a positive,
/// storable dilation factor.
pub open spec fn gesture_wf(g: Gesture) -> bool {
    match g {
        Gesture::Drag { .. } => true,
        Gesture::Pinch { dilation, .. } => dilation.wf() && rat_lt(rat_zero(), dilation@),
    }
}

/// Waterfall interaction controller.
///
/// Routes recognized gestures to the pan and zoom logic and owns the
/// overflow accumulator that carries pan debt across the drag events of
/// one continuous gesture.
pub struct WaterfallInteraction {
    center_freq_overflow: Rat,
}

impl WaterfallInteraction {
    /// The overflow accumulator: requested pan that could not be applied
    /// to the view and is owed to the tuning hardware.
    pub closed spec fn spec_overflow(&self) -> Ratio {
        self.center_freq_overflow@
    }

    pub open spec fn inv(&self) -> bool {
        rat_bounded(self.spec_overflow())
    }

    /// Creates an interaction controller with an empty accumulator.
    pub fn new() -> (s: WaterfallInteraction)
        ensures
            s.inv(),
            s.spec_overflow() == rat_zero(),
    {
        WaterfallInteraction { center_freq_overflow: Rat::zero() }
    }

    pub fn overflow(&self) -> (r: Rat)
        ensures
            r@ == self.spec_overflow(),
    {
        self.center_freq_overflow
    }

    /// Reset hook for the release of the last active pointer: any
    /// unresolved sub-threshold pan debt is discarded.
    pub fn pointer_released(&mut self)
        ensures
            final(self).inv(),
            final(self).spec_overflow() == rat_zero(),
    {
        self.center_freq_overflow = Rat::zero();
    }

    /// Pans the window by a drag of `dx` pixels.
    ///
    /// The requested destination is clamped to the valid range; the part
    /// the clamp swallowed joins the overflow accumulator.  Below the
    /// threshold, the clamped destination is committed to the view.  At or
    /// above it, the view keeps its clamped position, one threshold-sized
    /// shift with the accumulator's sign leaves the accumulator, and a
    /// retune request for that shift is returned instead.  `Err` exactly
    /// when an exact intermediate value cannot be stored; nothing is then
    /// changed.
    pub fn handle_drag(&mut self, view: &mut ViewState, dx: i32, width: u32) -> (r: Result<
        GestureEffect,
        RangeError,
    >)
        requires
            old(self).inv(),
            old(view).inv(),
            width >= 1,
        ensures
            final(self).inv(),
            final(view).inv(),
            ({
                let c = old(view).spec_center();
                let z = old(view).spec_zoom();
                let ov = old(self).spec_overflow();
                let req = spec_requested(c, z, dx as int, width as int);
                let cl = spec_clamp_center(req, z);
                let ov1 = spec_overflow_after(c, z, ov, dx as int, width as int);
                &&& (r is Ok <==> drag_fits(c, z, ov, dx as int, width as int))
                &&& (r is Err ==> view_unchanged(*old(view), *final(view)) && final(self).spec_overflow() == ov)
                &&& (r is Ok && !crosses_threshold(ov1) ==> r == Ok::<GestureEffect, RangeError>(
                    GestureEffect::Panned,
                ) && final(view).spec_zoom() == z && final(view).spec_center() == cl && final(self).spec_overflow() == ov1)
                &&& (r is Ok && crosses_threshold(ov1) ==> view_unchanged(
                    *old(view),
                    *final(view),
                ) && final(self).spec_overflow() == rat_sub(ov1, spec_shift(ov1)) && (r matches Ok(
                    e,
                ) && e matches GestureEffect::Retune { shift } && shift@ == spec_shift(ov1)))
            }),
    {
        let z = view.get_zoom();
        let c = view.get_center_frequency();
        let ov = self.center_freq_overflow;
        let ghost zg = z@;
        let ghost cg = c@;
        let ghost ovg = ov@;
        let ghost dxg = dx as int;
        let ghost wg = width as int;

        // requested = center - dx * units_per_px
        proof {
            lemma_mul_bound(zg.n, wg, 0x8000_0000, 0x1_0000_0000);
            lemma_mul_pos(zg.n, wg);
            lemma_mul_bound(dxg, 2 * zg.d, 0x8000_0000, 0x1_0000_0000);
            lemma_mul_bound(cg.n, zg.n * wg, 0x8000_0000, 0x8000_0000_0000_0000);
            lemma_mul_bound(dxg * (2 * zg.d), cg.d, 0x8000_0000_0000_0000, 0x8000_0000);
            lemma_mul_bound(cg.d, zg.n * wg, 0x8000_0000, 0x8000_0000_0000_0000);
            lemma_mul_pos(cg.d, zg.n * wg);
        }
        let zn: i128 = z.num() as i128;
        let zd: i128 = z.den() as i128;
        let cn: i128 = c.num() as i128;
        let cd: i128 = c.den() as i128;
        let dxw: i128 = dx as i128;
        let w: i128 = width as i128;
        let inner: i128 = zn * w;
        let req_n: i128 = cn * inner - (dxw * (2 * zd)) * cd;
        let req_d: i128 = cd * inner;
        proof {
            assert(req_n as int == spec_requested(cg, zg, dxg, wg).n);
            assert(req_d as int == spec_requested(cg, zg, dxg, wg).d);
        }
        let req: Rat = match crate::rat::checked(req_n, req_d) {
            Some(q) => q,
            None => { return Err(RangeError) },
        };
        let cl = clamp_center_frequency(&req, &z);

        // overflow += requested - clamped
        proof {
            let b = COMPONENT_BOUND as int;
            lemma_mul_bound(req@.n, cl@.d, b, b);
            lemma_mul_bound(cl@.n, req@.d, b, b);
            lemma_mul_bound(req@.d, cl@.d, b, b);
            lemma_mul_pos(req@.d, cl@.d);
            lemma_mul_bound(ovg.n, req@.d * cl@.d, b, 0x4000_0000_0000_0000);
            lemma_mul_bound(
                req@.n * cl@.d - cl@.n * req@.d,
                ovg.d,
                0x8000_0000_0000_0000,
                b,
            );
            lemma_mul_bound(ovg.d, req@.d * cl@.d, b, 0x4000_0000_0000_0000);
            lemma_mul_pos(ovg.d, req@.d * cl@.d);
        }
        let rn: i128 = req.num() as i128;
        let rd: i128 = req.den() as i128;
        let cln: i128 = cl.num() as i128;
        let cld: i128 = cl.den() as i128;
        let ovn: i128 = ov.num() as i128;
        let ovd: i128 = ov.den() as i128;
        let delta_n: i128 = rn * cld - cln * rd;
        let delta_d: i128 = rd * cld;
        let ov1_n: i128 = ovn * delta_d + delta_n * ovd;
        let ov1_d: i128 = ovd * delta_d;
        let ghost ov1 = spec_overflow_after(cg, zg, ovg, dxg, wg);
        proof {
            assert(ov1_n as int == ov1.n);
            assert(ov1_d as int == ov1.d);
        }

        let crosses: bool = if ov1_n >= 0 {
            ov1_d <= ov1_n * 4
        } else {
            ov1_d <= (-ov1_n) * 4
        };
        proof {
            assert(crosses == crosses_threshold(ov1));
        }
        if !crosses {
            match crate::rat::checked(ov1_n, ov1_d) {
                Some(q) => {
                    view.commit(z, cl);
                    self.center_freq_overflow = q;
                    Ok(GestureEffect::Panned)
                },
                None => Err(RangeError),
            }
        } else {
            let shift: Rat = if ov1_n >= 0 {
                match Rat::new(1, 4) {
                    Some(s) => s,
                    None => {
                        proof {
                            assert(false);
                        }
                        Rat::zero()
                    },
                }
            } else {
                match Rat::new(-1, 4) {
                    Some(s) => s,
                    None => {
                        proof {
                            assert(false);
                        }
                        Rat::zero()
                    },
                }
            };
            let ov2_n: i128 = if ov1_n >= 0 {
                ov1_n * 4 - ov1_d
            } else {
                ov1_n * 4 + ov1_d
            };
            let ov2_d: i128 = ov1_d * 4;
            proof {
                if ov1_n >= 0 {
                    assert(spec_shift(ov1) == (Ratio { n: 1, d: 4 }));
                } else {
                    assert(spec_shift(ov1) == (Ratio { n: -1, d: 4 }));
                }
                assert(ov2_n as int == rat_sub(ov1, spec_shift(ov1)).n);
                assert(ov2_d as int == rat_sub(ov1, spec_shift(ov1)).d);
            }
            match crate::rat::checked(ov2_n, ov2_d) {
                Some(q) => {
                    self.center_freq_overflow = q;
                    Ok(GestureEffect::Retune { shift })
                },
                None => Err(RangeError),
            }
        }
    }

    /// Routes a recognized gesture: a drag to the pan logic, a pinch to
    /// the zoom logic with its center pixel as the pivot.
    pub fn process_gesture(&mut self, view: &mut ViewState, gesture: &Gesture, width: u32) -> (r:
        Result<GestureEffect, RangeError>)
        requires
            old(self).inv(),
            old(view).inv(),
            gesture_wf(*gesture),
            width >= 1,
        ensures
            final(self).inv(),
            final(view).inv(),
            ({
                match *gesture {
                    Gesture::Drag { dx } => {
                        let c = old(view).spec_center();
                        let z = old(view).spec_zoom();
                        let ov = old(self).spec_overflow();
                        let cl = spec_clamp_center(
                            spec_requested(c, z, dx as int, width as int),
                            z,
                        );
                        let ov1 = spec_overflow_after(c, z, ov, dx as int, width as int);
                        &&& (r is Ok <==> drag_fits(c, z, ov, dx as int, width as int))
                        &&& (r is Err ==> view_unchanged(*old(view), *final(view)) && final(self).spec_overflow() == ov)
                        &&& (r is Ok && !crosses_threshold(ov1) ==> r == Ok::<
                            GestureEffect,
                            RangeError,
                        >(GestureEffect::Panned) && final(view).spec_zoom() == z && final(view).spec_center() == cl && final(self).spec_overflow() == ov1)
                        &&& (r is Ok && crosses_threshold(ov1) ==> view_unchanged(
                            *old(view),
                            *final(view),
                        ) && final(self).spec_overflow() == rat_sub(ov1, spec_shift(ov1)) && (
                        r matches Ok(e) && e matches GestureEffect::Retune { shift } && shift@
                            == spec_shift(ov1)))
                    },
                    Gesture::Pinch { center_px, dilation } => {
                        let z = old(view).spec_zoom();
                        let c = old(view).spec_center();
                        &&& final(self).spec_overflow() == old(self).spec_overflow()
                        &&& (r is Ok <==> dilation_noop(z, dilation@) || dilation_fits(
                            c,
                            z,
                            dilation@,
                            center_px as int,
                            width as int,
                        ))
                        &&& (r is Ok ==> r == Ok::<GestureEffect, RangeError>(
                            GestureEffect::Zoomed,
                        ))
                        &&& (dilation_noop(z, dilation@) || r is Err ==> view_unchanged(
                            *old(view),
                            *final(view),
                        ))
                        &&& (!dilation_noop(z, dilation@) && r is Ok ==> dilation_applied(
                            *old(view),
                            *final(view),
                            dilation@,
                            center_px as int,
                            width as int,
                        ))
                    },
                }
            }),
    {
        match gesture {
            Gesture::Drag { dx } => self.handle_drag(view, *dx, width),
            Gesture::Pinch { center_px, dilation } => {
                match apply_dilation(view, dilation, *center_px, width) {
                    Ok(()) => Ok(GestureEffect::Zoomed),
                    Err(e) => Err(e),
                }
            },
        }
    }
}

/// The absolute tuning frequency a retune shift asks for:
/// `center_hz + 0.5 * shift * sample_rate_hz` (one normalized unit spans
/// half the sample rate).  `Err` exactly when the exact result has a
/// component out of the storable range.
pub fn retune_frequency(center_hz: &Rat, sample_rate_hz: &Rat, shift: &Rat) -> (r: Result<
    Rat,
    RangeError,
>)
    requires
        center_hz.wf(),
        sample_rate_hz.wf(),
        shift.wf(),
    ensures
        ({
            let t = rat_add(
                center_hz@,
                rat_mul(shift@, rat_div(sample_rate_hz@, rat_of_int(2))),
            );
            &&& (r is Ok <==> rat_bounded(t))
            &&& (r matches Ok(q) ==> q@ == t && q.wf())
        }),
{
    let ghost fcg = center_hz@;
    let ghost fsg = sample_rate_hz@;
    let ghost shg = shift@;
    proof {
        let b = COMPONENT_BOUND as int;
        lemma_mul_bound(shg.n, fsg.n, b, b);
        lemma_mul_bound(fsg.d, 2, b, 2);
        lemma_mul_bound(shg.d, fsg.d * 2, b, 0x1_0000_0000);
        lemma_mul_pos(fsg.d, 2);
        lemma_mul_pos(shg.d, fsg.d * 2);
        lemma_mul_bound(fcg.n, shg.d * (fsg.d * 2), b, 0x8000_0000_0000_0000);
        lemma_mul_bound(shg.n * fsg.n, fcg.d, 0x4000_0000_0000_0000, b);
        lemma_mul_bound(fcg.d, shg.d * (fsg.d * 2), b, 0x8000_0000_0000_0000);
        lemma_mul_pos(fcg.d, shg.d * (fsg.d * 2));
    }
    let n: i128 = (center_hz.num() as i128) * ((shift.den() as i128) * ((sample_rate_hz.den()
        as i128) * 2)) + ((shift.num() as i128) * (sample_rate_hz.num() as i128)) * (center_hz.den()
        as i128);
    let d: i128 = (center_hz.den() as i128) * ((shift.den() as i128) * ((sample_rate_hz.den()
        as i128) * 2));
    match crate::rat::checked(n, d) {
        Some(q) => Ok(q),
        None => Err(RangeError),
    }
}

/// A nonnegative rational frequency as a whole number of hertz, truncated
/// toward zero; a negative value gives zero.
pub fn to_hz(freq: &Rat) -> (h: u64)
    requires
        freq.wf(),
    ensures
        freq@.n <= 0 ==> h == 0,
        freq@.n > 0 ==> h as int == freq@.n / freq@.d,
{
    let n = freq.num();
    let d = freq.den();
    if n <= 0 {
        0
    } else {
        (n / d) as u64
    }
}

} // verus!
