//! The order of the squares: by file, and within a file by rank.

use crate::board::components::Location;
use std::cmp::Ordering;
use vstd::prelude::*;

verus! {

impl PartialOrd for Location {
    /// Compares two squares by file, and squares of one file by rank.
    fn partial_cmp(&self, other: &Location) -> (order: Option<Ordering>) {
        if self.x < other.x {
            Some(Ordering::Less)
        } else if self.x > other.x {
            Some(Ordering::Greater)
        } else if self.y < other.y {
            Some(Ordering::Less)
        } else if self.y > other.y {
            Some(Ordering::Greater)
        } else {
            Some(Ordering::Equal)
        }
    }
}

impl vstd::std_specs::cmp::PartialOrdSpecImpl for Location {
    open spec fn obeys_partial_cmp_spec() -> bool {
        true
    }

    /// A square comes before another if its file does, or if it is on the same
    /// file and its rank comes first.
    open spec fn partial_cmp_spec(&self, other: &Location) -> Option<Ordering> {
        if self.x < other.x {
            Some(Ordering::Less)
        } else if self.x > other.x {
            Some(Ordering::Greater)
        } else if self.y < other.y {
            Some(Ordering::Less)
        } else if self.y > other.y {
            Some(Ordering::Greater)
        } else {
            Some(Ordering::Equal)
        }
    }
}

} // verus!
