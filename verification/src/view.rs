//! The displayed frequency window and its clamp rules.
//!
//! The visible window is described by a zoom level in `[1, 128]` and a
//! normalized center frequency in `[-1, 1]`; the visible half-width is
//! `1 / zoom`, so the center is further confined to
//! `[-(1 - 1/zoom), 1 - 1/zoom]`.  This module holds the two clamp
//! primitives, the pixel-to-frequency-unit conversion, and [`ViewState`],
//! whose invariant is exactly that confinement.

use vstd::prelude::*;

use crate::rat::COMPONENT_BOUND;
use crate::rat::Rat;
use crate::rat::Ratio;
use crate::rat::lemma_mul_bound;
use crate::rat::lemma_mul_neg;
use crate::rat::lemma_mul_nonneg;
use crate::rat::lemma_mul_pos;
use crate::rat::rat_bounded;
use crate::rat::rat_div;
use crate::rat::rat_le;
use crate::rat::rat_lt;
use crate::rat::rat_neg;
use crate::rat::rat_of_int;
use crate::rat::rat_one;
use crate::rat::rat_recip;
use crate::rat::rat_sub;
use crate::rat::rat_wf;

verus! {

/// Fully zoomed out: the window shows the whole span.
pub const MIN_ZOOM: i64 = 1;

/// Maximum magnification.
pub const MAX_ZOOM: i64 = 128;

/// Zoom confined to `[1, 128]`.
pub open spec fn spec_clamp_zoom(z: Ratio) -> Ratio {
    if rat_lt(z, rat_of_int(MIN_ZOOM as int)) {
        rat_of_int(MIN_ZOOM as int)
    } else if rat_lt(rat_of_int(MAX_ZOOM as int), z) {
        rat_of_int(MAX_ZOOM as int)
    } else {
        z
    }
}

/// Largest center frequency magnitude that keeps the whole visible window
/// inside the full span: `1 - 1/zoom`.
pub open spec fn spec_center_limit(z: Ratio) -> Ratio {
    rat_sub(rat_one(), rat_recip(z))
}

/// Center frequency confined to `[-(1 - 1/zoom), 1 - 1/zoom]`.
pub open spec fn spec_clamp_center(f: Ratio, z: Ratio) -> Ratio {
    let m = spec_center_limit(z);
    if rat_lt(f, rat_neg(m)) {
        rat_neg(m)
    } else if rat_lt(m, f) {
        m
    } else {
        f
    }
}

/// Width, in normalized frequency units, that one screen pixel represents:
/// `(2 / zoom) / width`.
pub open spec fn spec_units_per_px(z: Ratio, w: int) -> Ratio {
    rat_div(rat_div(rat_of_int(2), z), rat_of_int(w))
}

/// Clamps a zoom level to `[1, 128]`.
pub fn clamp_zoom(zoom: &Rat) -> (r: Rat)
    requires
        zoom.wf(),
    ensures
        r@ == spec_clamp_zoom(zoom@),
        r.wf(),
        rat_le(rat_of_int(MIN_ZOOM as int), r@),
        rat_le(r@, rat_of_int(MAX_ZOOM as int)),
{
    let lo = Rat::from_int(MIN_ZOOM);
    let hi = Rat::from_int(MAX_ZOOM);
    if zoom.lt(&lo) {
        lo
    } else if hi.lt(zoom) {
        hi
    } else {
        *zoom
    }
}

/// The clamp bound `1 - 1/zoom` for a zoom level that is at least `1`.
pub fn center_limit(zoom: &Rat) -> (r: Rat)
    requires
        zoom.wf(),
        rat_le(rat_one(), zoom@),
    ensures
        r@ == spec_center_limit(zoom@),
        r.wf(),
{
    let n = zoom.num() - zoom.den();
    match Rat::new(n, zoom.num()) {
        Some(r) => r,
        None => {
            proof {
                assert(false);
            }
            Rat::zero()
        },
    }
}

/// Clamps a center frequency to the valid range for the given zoom level.
///
/// The result always lies in `[-(1 - 1/zoom), 1 - 1/zoom]`, whatever the
/// input frequency.
pub fn clamp_center_frequency(frequency: &Rat, zoom: &Rat) -> (r: Rat)
    requires
        frequency.wf(),
        zoom.wf(),
        rat_le(rat_one(), zoom@),
    ensures
        r@ == spec_clamp_center(frequency@, zoom@),
        r.wf(),
        rat_le(rat_neg(spec_center_limit(zoom@)), r@),
        rat_le(r@, spec_center_limit(zoom@)),
{
    let m = center_limit(zoom);
    let neg_m = m.neg();
    proof {
        lemma_mul_nonneg(m@.n, m@.d);
        lemma_mul_neg(m@.n, m@.d);
    }
    if frequency.lt(&neg_m) {
        neg_m
    } else if m.lt(frequency) {
        m
    } else {
        *frequency
    }
}

/// Converts a zoom level and a surface width in pixels to the width of one
/// pixel in frequency units; `None` exactly when the exact result has a
/// component out of the storable range.
pub fn units_per_px(zoom: &Rat, width: u32) -> (r: Option<Rat>)
    requires
        zoom.wf(),
        rat_le(rat_one(), zoom@),
        width >= 1,
    ensures
        r is Some <==> rat_bounded(spec_units_per_px(zoom@, width as int)),
        r matches Some(q) ==> q@ == spec_units_per_px(zoom@, width as int) && q.wf(),
{
    proof {
        lemma_mul_bound(zoom@.n, width as int, COMPONENT_BOUND as int, 0x1_0000_0000);
        lemma_mul_pos(zoom@.n, width as int);
    }
    let n: i128 = 2 * (zoom.den() as i128);
    let d: i128 = (zoom.num() as i128) * (width as i128);
    crate::rat::checked(n, d)
}

/// Clamping a zoom level twice gives the same result as clamping it once.
pub proof fn lemma_clamp_zoom_idempotent(z: Ratio)
    requires
        rat_wf(z),
    ensures
        spec_clamp_zoom(spec_clamp_zoom(z)) == spec_clamp_zoom(z),
{
}

/// Clamping a center frequency twice gives the same result as clamping it
/// once.
pub proof fn lemma_clamp_center_idempotent(f: Ratio, z: Ratio)
    requires
        rat_wf(f),
        rat_wf(z),
        rat_le(rat_one(), z),
    ensures
        spec_clamp_center(spec_clamp_center(f, z), z) == spec_clamp_center(f, z),
{
    let m = spec_center_limit(z);
    lemma_mul_nonneg(m.n, m.d);
    lemma_mul_neg(m.n, m.d);
}

/// The displayed frequency window: zoom level and normalized center
/// frequency, always mutually consistent.
pub struct ViewState {
    zoom: Rat,
    center: Rat,
}

/// The confinement that every committed window satisfies: zoom in
/// `[1, 128]`, center within the clamp bound for that zoom.
pub open spec fn window_valid(z: Ratio, c: Ratio) -> bool {
    &&& rat_bounded(z)
    &&& rat_bounded(c)
    &&& rat_le(rat_one(), z)
    &&& rat_le(z, rat_of_int(MAX_ZOOM as int))
    &&& rat_le(rat_neg(spec_center_limit(z)), c)
    &&& rat_le(c, spec_center_limit(z))
}

impl ViewState {
    pub closed spec fn spec_zoom(&self) -> Ratio {
        self.zoom@
    }

    pub closed spec fn spec_center(&self) -> Ratio {
        self.center@
    }

    pub open spec fn inv(&self) -> bool {
        window_valid(self.spec_zoom(), self.spec_center())
    }

    /// Builds a window from a requested zoom and center frequency, clamping
    /// both into range.
    pub fn new(zoom: Rat, center: Rat) -> (v: ViewState)
        requires
            zoom.wf(),
            center.wf(),
        ensures
            v.inv(),
            v.spec_zoom() == spec_clamp_zoom(zoom@),
            v.spec_center() == spec_clamp_center(center@, spec_clamp_zoom(zoom@)),
    {
        let z = clamp_zoom(&zoom);
        let c = clamp_center_frequency(&center, &z);
        ViewState { zoom: z, center: c }
    }

    pub fn get_zoom(&self) -> (r: Rat)
        ensures
            r@ == self.spec_zoom(),
    {
        self.zoom
    }

    pub fn get_center_frequency(&self) -> (r: Rat)
        ensures
            r@ == self.spec_center(),
    {
        self.center
    }

    /// Commits a zoom level and a center frequency together, as one atomic
    /// update; the pair must already be mutually consistent.
    pub(crate) fn commit(&mut self, zoom: Rat, center: Rat)
        requires
            window_valid(zoom@, center@),
        ensures
            final(self).spec_zoom() == zoom@,
            final(self).spec_center() == center@,
            final(self).inv(),
    {
        self.zoom = zoom;
        self.center = center;
    }
}

} // verus!
