//! The accelerated entropy source.
//!
//! No accelerated source exists yet: a context never reports one, and a batch
//! asked of it is empty. Whoever asks makes up from the processor's source
//! for what the accelerated one did not give.

use vstd::prelude::*;

use crate::entropy::BLOCK_BYTES;

verus! {

/// A handle to the accelerated entropy source.
#[derive(Debug)]
pub struct GpuContext {
    available: bool,
}

impl GpuContext {
    /// Whether an accelerated source stands behind this context.
    pub closed spec fn available(&self) -> bool {
        self.available
    }

    /// Looks for an accelerated source. There is none to find.
    pub fn new() -> (context: GpuContext)
        ensures
            !context.available(),
    {
        GpuContext { available: false }
    }

    /// Whether an accelerated source stands behind this context.
    pub fn is_available(&self) -> (available: bool)
        ensures
            available == self.available(),
    {
        self.available
    }

    /// A batch of entropy blocks from the accelerated source: no block, since
    /// there is no such source, however many were asked for.
    pub fn generate_entropy_batch(&self, _size: usize) -> (batch: Vec<[u8; BLOCK_BYTES]>)
        ensures
            batch@.len() == 0,
    {
        Vec::new()
    }
}

} // verus!
