//! The worker's batch.
//!
//! A worker turns one throttle sample into one batch: it sizes the batch,
//! draws the entropy, renders and screens every block, and hands back the
//! candidates it found with the number of blocks it went through.

use std::sync::atomic::{AtomicBool, Ordering};
use vstd::prelude::*;

use crate::encoder::{evaluate, mnemonic_phrase};
use crate::entropy::{EntropySource, BLOCK_BYTES};
use crate::phrase::{screened, Candidate};
use crate::throttle::{effective_batch, factor_of, scaled_batch, ThrottleSample, SCALE};

verus! {

/// Whether the stop signal is set. It is read anew at every call.
fn stop_requested(stop: &AtomicBool) -> bool {
    stop.load(Ordering::Relaxed)
}

/// The bytes of each block of a batch.
pub open spec fn bytes_of(blocks: Seq<[u8; BLOCK_BYTES]>) -> Seq<Seq<u8>> {
    Seq::new(blocks.len(), |i: int| blocks[i]@)
}

/// The candidates of a run of blocks under a rejection threshold: what
/// screening leaves of the rendering of each block, in the order of the
/// blocks. A block that gives nothing leaves no trace.
pub open spec fn candidates_of(blocks: Seq<Seq<u8>>, threshold: nat) -> Seq<Seq<char>>
    decreases blocks.len(),
{
    if blocks.len() == 0 {
        Seq::empty()
    } else {
        let before = candidates_of(blocks.drop_last(), threshold);
        match screened(mnemonic_phrase(blocks.last()), threshold) {
            Some(phrase) => before.push(phrase),
            None => before,
        }
    }
}

/// A run of blocks has no more candidates than blocks, and each candidate
/// weighs less than the threshold.
pub proof fn lemma_candidates_of(blocks: Seq<Seq<u8>>, threshold: nat)
    ensures
        candidates_of(blocks, threshold).len() <= blocks.len(),
        forall|i: int|
            0 <= i < candidates_of(blocks, threshold).len() ==> crate::phrase::weight_of(
                #[trigger] candidates_of(blocks, threshold)[i],
            ) < threshold,
    decreases blocks.len(),
{
    if blocks.len() > 0 {
        lemma_candidates_of(blocks.drop_last(), threshold);
    }
}

/// What a batch outcome holds.
#[verifier::ext_equal]
pub struct OutcomeView {
    /// The number of blocks that the worker went through.
    pub processed: nat,
    /// The phrases of the candidates found, in the order of their blocks.
    pub candidates: Seq<Seq<char>>,
    /// Whether the worker saw the stop signal and left the batch.
    pub stopped: bool,
    /// Whether the batch was scaled down.
    pub throttled: bool,
}

impl OutcomeView {
    /// Whether this is what `blocks` come to under `threshold`: the blocks
    /// were gone through in order, all of them unless the stop signal was
    /// seen before one of them, and the candidates are those of the blocks
    /// gone through.
    pub open spec fn comes_of(self, blocks: Seq<Seq<u8>>, threshold: nat) -> bool {
        &&& self.processed <= blocks.len()
        &&& self.stopped <==> self.processed < blocks.len()
        &&& self.candidates == candidates_of(blocks.take(self.processed as int), threshold)
    }
}

/// What one batch of a worker came to.
pub struct BatchOutcome {
    processed: usize,
    candidates: Vec<Candidate>,
    stopped: bool,
    throttled: bool,
}

impl View for BatchOutcome {
    type V = OutcomeView;

    closed spec fn view(&self) -> OutcomeView {
        OutcomeView {
            processed: self.processed as nat,
            candidates: Seq::new(self.candidates@.len(), |i: int| self.candidates@[i]@),
            stopped: self.stopped,
            throttled: self.throttled,
        }
    }
}

impl BatchOutcome {
    #[verifier::type_invariant]
    spec fn counted(self) -> bool {
        self.candidates@.len() <= self.processed
    }

    /// The number of blocks that the worker went through.
    pub fn processed(&self) -> (processed: usize)
        ensures
            processed == self@.processed,
            self@.candidates.len() <= processed,
    {
        proof {
            use_type_invariant(self);
        }
        self.processed
    }

    /// The candidates found.
    pub fn candidates(&self) -> (candidates: &Vec<Candidate>)
        ensures
            candidates@.len() == self@.candidates.len(),
            forall|i: int| 0 <= i < candidates@.len() ==> (#[trigger] candidates@[i])@ == self@.candidates[i],
    {
        &self.candidates
    }

    /// Gives the candidates up, in the order of their blocks.
    pub fn into_candidates(self) -> (candidates: Vec<Candidate>)
        ensures
            candidates@.len() == self@.candidates.len(),
            forall|i: int|
                0 <= i < candidates@.len() ==> (#[trigger] candidates@[i])@ == self@.candidates[i],
    {
        self.candidates
    }

    /// Whether the worker saw the stop signal and left the batch.
    pub fn stopped(&self) -> (stopped: bool)
        ensures
            stopped == self@.stopped,
    {
        self.stopped
    }

    /// Whether the batch was scaled down.
    pub fn throttled(&self) -> (throttled: bool)
        ensures
            throttled == self@.throttled,
    {
        self.throttled
    }

    /// What the worker does next: it ends where it saw the stop signal;
    /// else it rests a moment where the batch was scaled down, so that it
    /// does not spin on batches of one block; else it goes on at once.
    pub fn next_step(&self) -> (step: NextStep)
        ensures
            step == if self@.stopped {
                NextStep::Stop
            } else if self@.throttled {
                NextStep::Rest
            } else {
                NextStep::Continue
            },
    {
        if self.stopped {
            NextStep::Stop
        } else if self.throttled {
            NextStep::Rest
        } else {
            NextStep::Continue
        }
    }
}

/// What a worker does after a batch.
#[derive(Clone, Copy, Debug, PartialEq, Eq, Structural)]
pub enum NextStep {
    /// The stop signal was seen: the worker ends.
    Stop,
    /// The batch was scaled down: the worker rests for `THROTTLED_PAUSE_MS`
    /// and goes on.
    Rest,
    /// The worker goes on at once.
    Continue,
}

/// What a worker is set up with.
pub struct WorkerView {
    /// The number of blocks in a batch that is not scaled down.
    pub batch_size: nat,
    /// The rejection threshold.
    pub threshold: nat,
}

/// One worker. It belongs to the thread that made it.
pub struct Worker {
    batch_size: usize,
    threshold: usize,
    source: EntropySource,
}

impl View for Worker {
    type V = WorkerView;

    closed spec fn view(&self) -> WorkerView {
        WorkerView { batch_size: self.batch_size as nat, threshold: self.threshold as nat }
    }
}

impl Worker {
    /// A worker for the calling thread.
    pub fn new(batch_size: usize, threshold: usize, use_gpu: bool) -> (worker: Worker)
        ensures
            worker@ == (WorkerView { batch_size: batch_size as nat, threshold: threshold as nat }),
    {
        Worker { batch_size, threshold, source: EntropySource::new(use_gpu) }
    }

    /// One batch. The batch is sized by the sample's factor and never has
    /// fewer than one block; its blocks are drawn from the worker's entropy
    /// source, and gone through as `process_batch` says.
    pub fn run_batch(&mut self, sample: &ThrottleSample, stop: &AtomicBool) -> (outcome:
        BatchOutcome)
        ensures
            final(self)@ == old(self)@,
            outcome@.throttled == (factor_of(sample@) < SCALE),
            exists|blocks: Seq<Seq<u8>>|
                blocks.len() == scaled_batch(old(self)@.batch_size, factor_of(sample@))
                    && #[trigger] outcome@.comes_of(blocks, old(self)@.threshold),
            outcome@.processed <= scaled_batch(old(self)@.batch_size, factor_of(sample@)),
            outcome@.candidates.len() <= outcome@.processed,
    {
        let factor = sample.factor();
        let size = effective_batch(self.batch_size, factor);
        let blocks = self.source.generate(size);
        let outcome = process_batch(&blocks, self.threshold, factor.millionths() < SCALE, stop);
        proof {
            assert(outcome@.comes_of(bytes_of(blocks@), old(self)@.threshold));
        }
        outcome
    }
}

/// Goes through the blocks of a batch in order. Before each block the stop
/// signal is read, and the batch is left as soon as it is set. Each block
/// counts as gone through whether or not anything comes of it; a block that
/// the encoder rejects, or whose phrase is at or above the threshold, gives
/// nothing, and every other block gives a candidate.
pub fn process_batch(
    blocks: &Vec<[u8; BLOCK_BYTES]>,
    threshold: usize,
    throttled: bool,
    stop: &AtomicBool,
) -> (outcome: BatchOutcome)
    ensures
        outcome@.comes_of(bytes_of(blocks@), threshold as nat),
        outcome@.throttled == throttled,
        outcome@.candidates.len() <= outcome@.processed,
{
    let ghost bytes = bytes_of(blocks@);
    let size = blocks.len();
    let mut candidates: Vec<Candidate> = Vec::new();
    let mut processed: usize = 0;
    let mut stopped = false;
    while processed < size
        invariant_except_break
            !stopped,
        invariant
            blocks@.len() == size,
            bytes == bytes_of(blocks@),
            processed <= size,
            candidates@.len() <= processed,
            candidates@.len() == candidates_of(bytes.take(processed as int), threshold as nat).len(),
            forall|i: int|
                0 <= i < candidates@.len() ==> (#[trigger] candidates@[i])@ == candidates_of(
                    bytes.take(processed as int),
                    threshold as nat,
                )[i],
        ensures
            stopped <==> processed < size,
        decreases size - processed,
    {
        if stop_requested(stop) {
            stopped = true;
            break ;
        }
        let found = evaluate(&blocks[processed], threshold);
        proof {
            assert(bytes.take(processed + 1).drop_last() =~= bytes.take(processed as int));
        }
        processed = processed + 1;
        match found {
            Some(candidate) => {
                candidates.push(candidate);
            },
            None => {},
        }
    }
    let outcome = BatchOutcome { processed, candidates, stopped, throttled };
    proof {
        assert(outcome@.candidates =~= candidates_of(
            bytes.take(processed as int),
            threshold as nat,
        ));
    }
    outcome
}

} // verus!
