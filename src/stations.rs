//! Observation-station data that the library models itself.

use vstd::prelude::*;

verus! {

/// A weather phenomenon reported in a METAR observation.
#[derive(Clone, Debug, PartialEq, Eq)]
pub struct MetarPhenomenon {
    pub intensity: Option<String>,
    pub modifier: Option<String>,
    pub weather: String,
    pub raw_string: String,
    pub in_vicinity: Option<bool>,
}

} // verus!
