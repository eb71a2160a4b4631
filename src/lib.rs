//! Intent batching relayer: intake queue, flush scheduling, batch planning,
//! blob framing, attestation and batch counters, with their contracts proved by Verus.
use vstd::prelude::*;

pub mod attestation;
pub mod blob;
mod clock;
pub mod crypto;
pub mod engine;
pub mod error;
pub mod fishing_spot;
pub mod ordering;
pub mod phi_optimization;
pub mod staking;
pub mod types;
pub mod williams;

verus! {

/// Version of the relayer.
pub const VERSION: &'static str = "0.1.0";

/// Largest batch the relayer is meant to assemble.
pub const MAX_BATCH_SIZE: usize = 10_000;

/// Smallest batch worth settling.
pub const MIN_BATCH_SIZE: usize = 10;

} // verus!
