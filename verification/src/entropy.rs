//! Where entropy blocks come from.

use rand::rngs::ThreadRng;
use rand::RngCore;
use vstd::prelude::*;

use crate::gpu::GpuContext;

verus! {

/// Bytes in one entropy block: 128 bits.
pub const BLOCK_BYTES: usize = 16;

/// `rand::rngs::ThreadRng`: a handle to the calling thread's generator,
/// which the operating system seeds.
#[verifier::external_type_specification]
#[verifier::external_body]
pub struct ExThreadRng(ThreadRng);

/// `rand::thread_rng`: the handle to the calling thread's generator. Nothing
/// is claimed of it. It panics where the operating system gives no seed.
pub assume_specification[ rand::thread_rng ]() -> (rng: ThreadRng);

/// `RngCore::fill_bytes` of `ThreadRng`, on one block. The bytes are random:
/// nothing is claimed of them.
#[verifier::external_body]
fn random_block(rng: &mut ThreadRng) -> (block: [u8; BLOCK_BYTES]) {
    let mut block = [0u8; BLOCK_BYTES];
    rng.fill_bytes(&mut block);
    block
}

/// A source of entropy blocks: the accelerated source where one is in use,
/// and the thread's random generator for all that it does not give.
pub struct EntropySource {
    gpu: Option<GpuContext>,
    rng: ThreadRng,
}

impl EntropySource {
    /// Whether an accelerated source is in use.
    pub closed spec fn accelerated(&self) -> bool {
        self.gpu is Some
    }

    /// The source for the calling thread. With `use_gpu` an accelerated
    /// source is looked for, and used where one is found.
    pub fn new(use_gpu: bool) -> (source: EntropySource)
        ensures
            !source.accelerated(),
    {
        EntropySource { gpu: accelerated_context(use_gpu), rng: rand::thread_rng() }
    }

    /// Whether an accelerated source is in use.
    pub fn is_accelerated(&self) -> (accelerated: bool)
        ensures
            accelerated == self.accelerated(),
    {
        self.gpu.is_some()
    }

    /// `count` entropy blocks. What the accelerated source gives comes
    /// first, cut to `count` blocks; the thread's generator gives the rest.
    pub fn generate(&mut self, count: usize) -> (blocks: Vec<[u8; BLOCK_BYTES]>)
        ensures
            blocks@.len() == count,
            final(self).accelerated() == old(self).accelerated(),
    {
        let mut blocks: Vec<[u8; BLOCK_BYTES]> = match &self.gpu {
            Some(context) => context.generate_entropy_batch(count),
            None => Vec::new(),
        };
        if blocks.len() > count {
            blocks.truncate(count);
        }
        while blocks.len() < count
            invariant
                blocks@.len() <= count,
                self.accelerated() == old(self).accelerated(),
            decreases count - blocks@.len(),
        {
            let block = random_block(&mut self.rng);
            blocks.push(block);
        }
        blocks
    }
}

/// The accelerated context to work with: one is looked for only where
/// `use_gpu` asks for it, and kept only where a source stands behind it.
pub fn accelerated_context(use_gpu: bool) -> (context: Option<GpuContext>)
    ensures
        context is None,
{
    if use_gpu {
        let context = GpuContext::new();
        if context.is_available() {
            Some(context)
        } else {
            None
        }
    } else {
        None
    }
}

} // verus!
