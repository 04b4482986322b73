//! Application-wide defaults.
use vstd::prelude::*;

verus! {

/// The Parakeet model that the application selects when the user has made no choice.
pub const DEFAULT_PARAKEET_MODEL: &'static str = "parakeet-tdt-0.6b-v3-int8";

} // verus!
