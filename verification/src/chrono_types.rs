//! Values of time.

pub mod duration;
