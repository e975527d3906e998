//! The ways in which a design can fail.

use vstd::prelude::*;
use crate::profile::ProfileError;

verus! {

/// Why no drawing was made.
#[derive(Debug, Clone, Copy, PartialEq, Eq)]
pub enum Error {
    /// The settings name no stroke, so the disc would have no sector.
    NoStrokes,
    /// The profile of this sector is no profile; no sector before it has a
    /// fault.
    Profile { sector: usize, fault: ProfileError },
    /// The geometry does not hold one entry for each sector.
    SectorCount,
    /// The geometry of this sector does not hold what the sector's plan asks
    /// for; no sector before it fails so.
    SectorShape { sector: usize },
    /// The settings give this hole fewer than three corners; no hole
    /// before it has a fault.
    TooFewVertices { hole: usize },
    /// The settings give this hole corners without end, or more than the
    /// machine can number; no hole before it has a fault.
    TooManyVertices { hole: usize },
    /// The geometry does not hold one outline for each hole of the disc.
    HoleCount,
    /// The outline of this hole does not have the corners that the plan
    /// asks for; no hole before it fails so.
    HoleShape { hole: usize },
}

} // verus!
