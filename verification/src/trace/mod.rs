//! What a trace does with the events that it is handed.

pub mod callback_data;

use crate::provider::Provider;
use vstd::prelude::*;

verus! {

/// A kind of real-time trace.
pub trait RealTimeTraceTrait {
    /// The enable flags of a trace with these providers.
    fn enable_flags(providers: &[Provider]) -> u32;
}

} // verus!
