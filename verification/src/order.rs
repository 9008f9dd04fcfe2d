//! The order of two values by their canonical quantities.

use std::cmp::Ordering;
use vstd::prelude::*;

verus! {

/// How the number `a` stands to the number `b`.
pub open spec fn order_of(a: int, b: int) -> Ordering {
    if a < b {
        Ordering::Less
    } else if a == b {
        Ordering::Equal
    } else {
        Ordering::Greater
    }
}

} // verus!
