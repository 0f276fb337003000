//! The errors that the library reports.
use vstd::prelude::*;

verus! {

/// Why a request was refused.
#[derive(Clone, Copy, Debug, PartialEq, Eq, Structural)]
pub enum StatsError {
    /// The parameters given for a distribution lie outside its domain.
    BadParams,
}

} // verus!
