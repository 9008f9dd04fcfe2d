//! The ways in which a piece of text can fail to be a unit-suffixed value.

use crate::decimal::MagnitudeFault;
use vstd::prelude::*;

verus! {

/// The kind of a parse failure.
#[derive(Debug, Clone, Copy, PartialEq, Eq, Hash, Structural)]
pub enum ParseErrorKind {
    /// The text holds no magnitude, so it has the shape of no value at all.
    MalformedInput,
    /// A magnitude was found, but it denotes no number that the value can hold.
    InvalidMagnitude(MagnitudeFault),
    /// A unit was found, but it is no suffix of the registry.
    UnrecognizedUnit,
}

} // verus!
