//! Sparklines: small, dense line charts for embedded displays.
//!
//! A [`Sparkline`] keeps a sliding window of the most recent integer samples and
//! maps them onto the pixels of a bounding rectangle; each pair of neighbouring
//! points is joined by a primitive that a caller-supplied connector produces.
mod geometry;
pub mod mapping;
pub mod sparkline;

pub use mapping::{bounds, plot_points};
pub use sparkline::Sparkline;
