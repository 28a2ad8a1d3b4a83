use waterfall_interaction::interaction::Gesture;
use waterfall_interaction::interaction::GestureEffect;
use waterfall_interaction::interaction::WaterfallInteraction;
use waterfall_interaction::interaction::apply_dilation;
use waterfall_interaction::interaction::retune_frequency;
use waterfall_interaction::interaction::to_hz;
use waterfall_interaction::rat::Rat;
use waterfall_interaction::view::ViewState;
use waterfall_interaction::view::clamp_center_frequency;
use waterfall_interaction::view::clamp_zoom;
use waterfall_interaction::view::units_per_px;

fn rat(n: i64, d: i64) -> Rat {
    Rat::new(n, d).unwrap()
}

#[test]
fn clamp_zoom_bounds_and_idempotence() {
    let lo = clamp_zoom(&rat(1, 2));
    assert_eq!((lo.num(), lo.den()), (1, 1));
    let hi = clamp_zoom(&rat(1000, 1));
    assert_eq!((hi.num(), hi.den()), (128, 1));
    let mid = clamp_zoom(&rat(7, 2));
    assert_eq!((mid.num(), mid.den()), (7, 2));
    let twice = clamp_zoom(&clamp_zoom(&rat(1000, 1)));
    assert_eq!((twice.num(), twice.den()), (128, 1));
}

#[test]
fn clamp_center_within_range() {
    // zoom 4: the valid range is [-3/4, 3/4]
    let z = rat(4, 1);
    let c = clamp_center_frequency(&rat(19, 20), &z);
    assert_eq!((c.num(), c.den()), (3, 4));
    let c2 = clamp_center_frequency(&rat(-19, 20), &z);
    assert_eq!((c2.num(), c2.den()), (-3, 4));
    let c3 = clamp_center_frequency(&rat(1, 2), &z);
    assert_eq!((c3.num(), c3.den()), (1, 2));
    // zoom 1 forces the center to 0
    let c4 = clamp_center_frequency(&rat(1, 2), &rat(1, 1));
    assert!(c4.eq_value(&Rat::zero()));
}

#[test]
fn units_per_px_exact_value() {
    // (2 / zoom) / width at zoom 4, width 1024: 1/2048
    let u = units_per_px(&rat(4, 1), 1024).unwrap();
    assert!(u.eq_value(&rat(1, 2048)));
}

#[test]
fn zoom_about_surface_center_keeps_center() {
    // zoom 1, center 0; dilation 2 about the middle pixel of the surface
    let mut view = ViewState::new(rat(1, 1), Rat::zero());
    let r = apply_dilation(&mut view, &rat(2, 1), 512, 1024);
    assert!(r.is_ok());
    let z = view.get_zoom();
    assert_eq!((z.num(), z.den()), (2, 1));
    assert!(view.get_center_frequency().eq_value(&Rat::zero()));
}

#[test]
fn unit_dilation_is_noop() {
    let mut view = ViewState::new(rat(4, 1), rat(1, 2));
    let r = apply_dilation(&mut view, &rat(3, 3), 100, 1024);
    assert!(r.is_ok());
    assert_eq!((view.get_zoom().num(), view.get_zoom().den()), (4, 1));
    assert_eq!((view.get_center_frequency().num(), view.get_center_frequency().den()), (1, 2));
}

#[test]
fn dilation_at_zoom_bound_is_noop() {
    let mut view = ViewState::new(rat(1, 1), Rat::zero());
    let r = apply_dilation(&mut view, &rat(1, 2), 100, 1024);
    assert!(r.is_ok());
    assert_eq!((view.get_zoom().num(), view.get_zoom().den()), (1, 1));
}

#[test]
fn pivot_frequency_is_preserved() {
    // zoom 2, center 1/4; dilation 2 about pixel 100 on a 256-wide surface
    let mut view = ViewState::new(rat(2, 1), rat(1, 4));
    let pivot: i32 = 100;
    let before = frequency_under_pixel(&view, pivot as i64, 256);
    let r = apply_dilation(&mut view, &rat(2, 1), pivot, 256);
    assert!(r.is_ok());
    assert_eq!((view.get_zoom().num(), view.get_zoom().den()), (4, 1));
    let after = frequency_under_pixel(&view, pivot as i64, 256);
    assert!(before.eq_value(&after));
}

fn frequency_under_pixel(view: &ViewState, px: i64, width: u32) -> Rat {
    // center + px * units_per_px - 1/zoom
    let z = view.get_zoom();
    let u = units_per_px(&z, width).unwrap();
    let shift = Rat::from_int(px).mul(&u).unwrap();
    let half_width = Rat::one().div(&z).unwrap();
    view.get_center_frequency().add(&shift).unwrap().sub(&half_width).unwrap()
}

#[test]
fn drag_pans_within_range() {
    // zoom 4, width 16: one pixel is 1/32 of a unit
    let mut view = ViewState::new(rat(4, 1), Rat::zero());
    let mut ctl = WaterfallInteraction::new();
    let r = ctl.handle_drag(&mut view, -8, 16).unwrap();
    assert_eq!(r, GestureEffect::Panned);
    assert!(view.get_center_frequency().eq_value(&rat(1, 4)));
    assert!(ctl.overflow().eq_value(&Rat::zero()));
}

#[test]
fn clamped_drag_accumulates_overflow_then_retunes() {
    // zoom 4, center 7/10, width 16; a drag of -8 pixels asks for 0.95
    // while the bound is 0.75: the view clamps and 0.20 is owed.
    let mut view = ViewState::new(rat(4, 1), rat(7, 10));
    let mut ctl = WaterfallInteraction::new();
    let r1 = ctl.handle_drag(&mut view, -8, 16).unwrap();
    assert_eq!(r1, GestureEffect::Panned);
    assert!(view.get_center_frequency().eq_value(&rat(3, 4)));
    assert!(ctl.overflow().eq_value(&rat(1, 5)));
    // the same drag again pushes the debt to 0.45 >= 0.25: exactly one
    // retune of +0.25 is emitted, the view stays clamped, 0.20 remains
    let r2 = ctl.handle_drag(&mut view, -8, 16).unwrap();
    match r2 {
        GestureEffect::Retune { shift } => assert!(shift.eq_value(&rat(1, 4))),
        other => panic!("expected a retune, got {:?}", other),
    }
    assert!(view.get_center_frequency().eq_value(&rat(3, 4)));
    assert!(ctl.overflow().eq_value(&rat(1, 5)));
}

#[test]
fn negative_overflow_retunes_downward() {
    let mut view = ViewState::new(rat(4, 1), rat(-7, 10));
    let mut ctl = WaterfallInteraction::new();
    ctl.handle_drag(&mut view, 8, 16).unwrap();
    let r = ctl.handle_drag(&mut view, 8, 16).unwrap();
    match r {
        GestureEffect::Retune { shift } => assert!(shift.eq_value(&rat(-1, 4))),
        other => panic!("expected a retune, got {:?}", other),
    }
}

#[test]
fn pointer_release_clears_overflow() {
    let mut view = ViewState::new(rat(4, 1), rat(7, 10));
    let mut ctl = WaterfallInteraction::new();
    ctl.handle_drag(&mut view, -8, 16).unwrap();
    assert!(!ctl.overflow().eq_value(&Rat::zero()));
    ctl.pointer_released();
    assert!(ctl.overflow().eq_value(&Rat::zero()));
}

#[test]
fn gestures_are_routed() {
    let mut view = ViewState::new(rat(4, 1), Rat::zero());
    let mut ctl = WaterfallInteraction::new();
    let drag = Gesture::Drag { dx: -8 };
    assert_eq!(ctl.process_gesture(&mut view, &drag, 16).unwrap(), GestureEffect::Panned);
    let pinch = Gesture::Pinch { center_px: 8, dilation: rat(2, 1) };
    assert_eq!(ctl.process_gesture(&mut view, &pinch, 16).unwrap(), GestureEffect::Zoomed);
    assert_eq!((view.get_zoom().num(), view.get_zoom().den()), (8, 1));
}

#[test]
fn retune_target_frequency() {
    // 100 MHz center, 1 MHz sample rate, shift +1/4:
    // new frequency = 100_000_000 + 0.5 * 0.25 * 1_000_000 = 100_125_000
    let fc = rat(100_000_000, 1);
    let fs = rat(1_000_000, 1);
    let t = retune_frequency(&fc, &fs, &rat(1, 4)).unwrap();
    assert_eq!(to_hz(&t), 100_125_000);
    let down = retune_frequency(&fc, &fs, &rat(-1, 4)).unwrap();
    assert_eq!(to_hz(&down), 99_875_000);
}

#[test]
fn to_hz_truncates_and_saturates() {
    assert_eq!(to_hz(&rat(7, 2)), 3);
    assert_eq!(to_hz(&rat(-5, 2)), 0);
}

#[test]
fn view_constructor_clamps() {
    let v = ViewState::new(rat(1000, 1), rat(99, 100));
    assert_eq!((v.get_zoom().num(), v.get_zoom().den()), (128, 1));
    assert!(v.get_center_frequency().eq_value(&rat(99, 100)));
    let w = ViewState::new(rat(1, 1), rat(99, 100));
    assert!(w.get_center_frequency().eq_value(&Rat::zero()));
}

#[test]
fn out_of_range_values_are_rejected() {
    assert!(Rat::new(1, 0).is_none());
    assert!(Rat::new(1, -3).is_none());
    assert!(Rat::new(0x7fff_ffff + 1, 1).is_none());
    // a drag whose exact result cannot be stored reports a range error
    let mut view = ViewState::new(rat(4, 1), rat(1_000_000_007, 2_000_000_000));
    let mut ctl = WaterfallInteraction::new();
    assert!(ctl.handle_drag(&mut view, -8, 1_000_000_000).is_err());
}
