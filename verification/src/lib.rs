//! Human-readable configuration values: a duration and a byte size, each
//! written as a magnitude followed by an optional unit suffix (`100ms`, `4KiB`).
//!
//! Both kinds of value work alike. A registry of units gives each unit its
//! suffix and builds a pattern from them; the pattern splits a text into
//! magnitude and unit; the two pieces are held against the whole text and
//! resolved into a value, or into the reason why the text denotes none; and a
//! value is written back as its magnitude and its suffix.
//!
//! - [`size_config`]: byte sizes, in bytes, kibibytes and mebibytes.
//! - [`chrono_types::duration`]: durations, from milliseconds to days.
//! - [`pattern`]: the pattern's text and the engine that applies it.
//! - [`decimal`]: magnitudes as decimal text.
//! - [`error`], [`order`], [`text`]: what the two kinds of value share.

pub mod chrono_types;
pub mod decimal;
pub mod error;
pub mod order;
pub mod pattern;
pub mod size_config;
pub mod text;
