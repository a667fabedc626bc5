//! Small general-purpose helpers.

use vstd::prelude::*;

verus! {

/// An error value for callers that only care whether something failed.
#[derive(Debug, Copy, Clone)]
pub struct DontCare;

} // verus!
