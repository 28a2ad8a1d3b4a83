//! View-transform and gesture-interpretation logic for a pannable, zoomable
//! one-dimensional frequency display ("waterfall").
//!
//! Raw pointer and wheel input, already classified into drag and pinch
//! gestures by the host, is turned into changes of the displayed frequency
//! window: pixel-to-frequency conversion, zoom rescaling that keeps the
//! frequency under the pivot pixel fixed, and a threshold-based accumulator
//! that converts pan requests beyond the visible range into discrete
//! hardware retune requests.
//!
//! All quantities are exact rational numbers ([`rat::Rat`]); the host
//! converts to and from its own numeric types at the boundary.

pub mod interaction;
pub mod laws;
pub mod rat;
pub mod view;
