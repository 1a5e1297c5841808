//! The decisions behind a projection wall: what to tell the compositor, when a
//! frame may be shown, how pixels are shaded, and which geometry is in force.
//!
//! Everything here is a function of plain values. Times are nanoseconds on one
//! monotonic clock, real numbers are carried by their bit patterns, and text is
//! text. The surrounding program performs the input and output.
pub mod config;
pub mod model;
pub mod model_laws;
pub mod names;
pub mod projection;
pub mod projection_policy;
pub mod projection_policy_laws;
pub mod reals;
pub mod reconciler;
pub mod text;
pub mod text_laws;
pub mod view_laws;
