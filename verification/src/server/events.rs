//! The network-events service, which keeps no state.
use vstd::prelude::*;

verus! {

/// The network-events service.
#[derive(Debug)]
pub struct Events {}

} // verus!
