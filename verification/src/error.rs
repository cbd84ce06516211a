//! What can go wrong with an advisory file.

use vstd::prelude::*;

verus! {

/// The reasons for which a run is given up.
#[derive(Clone, Copy, Debug, PartialEq, Eq, Structural)]
pub enum BdeckError {
    /// A line, or the file itself, ends before a field that has to be read.
    FieldOutOfBounds,
    /// A numeric field other than the wind holds no number.
    MalformedNumber,
    /// An accumulated energy no longer fits the type that holds it.
    EnergyOverflow,
}

} // verus!
