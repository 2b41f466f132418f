//! The worker pool's shared state: the iteration counter and the result
//! store, with what the workers are set up from.
//!
//! Workers run their batches apart from one another. What a batch came to is
//! taken in here in one step: the counter moves first, by the number of
//! blocks gone through, then every candidate is offered to the store in the
//! order of its block. The counter is therefore never behind the result
//! list.

use vstd::prelude::*;

use crate::store::{
    bucket_size,
    distinct,
    entries_of,
    lemma_empty_well_formed,
    lemma_offer_all,
    lemma_offer_well_formed,
    offer_all,
    Policy,
    ResultStore,
    StoreView,
};
use crate::worker::{BatchOutcome, OutcomeView, Worker, WorkerView};

verus! {

/// What a pool holds.
pub struct PoolView {
    /// The number of workers, at least one.
    pub num_workers: nat,
    /// The number of blocks in a batch that is not scaled down.
    pub batch_size: nat,
    /// Whether an accelerated entropy source was asked for.
    pub use_gpu: bool,
    /// The iteration counter: the blocks that the workers went through.
    pub iterations: nat,
    /// The result store.
    pub store: StoreView,
}

impl PoolView {
    /// What holds of every pool: it has a worker, its store is well formed,
    /// and its iteration counter, a number of 64 bits, is not behind its
    /// result list.
    pub open spec fn sound(self) -> bool {
        &&& self.num_workers >= 1
        &&& self.store.well_formed()
        &&& self.store.entries.len() <= self.iterations <= u64::MAX
    }

    /// The pool before any work.
    pub open spec fn start(
        num_workers: nat,
        batch_size: nat,
        policy: Policy,
        use_gpu: bool,
    ) -> PoolView {
        PoolView {
            num_workers: if num_workers < 1 {
                1
            } else {
                num_workers
            },
            batch_size,
            use_gpu,
            iterations: 0,
            store: StoreView::empty(policy),
        }
    }

    /// The pool after it took in a batch outcome: the counter has moved by
    /// the blocks gone through, and stops at the largest number it can hold;
    /// the candidates were offered to the store, first to last.
    pub open spec fn absorb(self, outcome: OutcomeView) -> PoolView {
        PoolView {
            iterations: if self.iterations + outcome.processed > u64::MAX {
                u64::MAX as nat
            } else {
                self.iterations + outcome.processed
            },
            store: offer_all(self.store, outcome.candidates),
            ..self
        }
    }
}

/// The pool before any work is sound.
pub proof fn lemma_start_sound(num_workers: nat, batch_size: nat, policy: Policy, use_gpu: bool)
    ensures
        PoolView::start(num_workers, batch_size, policy, use_gpu).sound(),
{
    lemma_empty_well_formed(policy);
}

/// Taking in a batch outcome keeps a pool sound: the iteration counter
/// stays at or ahead of the length of the result list, no phrase comes to
/// stand twice in the list, and no bucket of the capped band comes to hold
/// more than the cap. It holds of every outcome that has no more candidates
/// than blocks gone through, as long as the list's length is a number that
/// the counter can hold.
pub proof fn lemma_absorb_sound(pool: PoolView, outcome: OutcomeView)
    requires
        pool.sound(),
        outcome.candidates.len() <= outcome.processed,
        pool.absorb(outcome).store.entries.len() <= u64::MAX,
    ensures
        pool.absorb(outcome).sound(),
        pool.absorb(outcome).iterations >= pool.iterations,
        pool.absorb(outcome).iterations >= pool.absorb(outcome).store.entries.len(),
        distinct(pool.absorb(outcome).store.entries),
        forall|w: usize|
            pool.store.policy.in_band(w as nat) ==> #[trigger] bucket_size(
                pool.absorb(outcome).store.entries,
                w,
            ) <= pool.store.policy.cap,
{
    lemma_offer_all(pool.store, outcome.candidates);
}

/// The pool after it took in each of `outcomes`, first to last.
pub open spec fn after_batches(pool: PoolView, outcomes: Seq<OutcomeView>) -> PoolView
    decreases outcomes.len(),
{
    if outcomes.len() == 0 {
        pool
    } else {
        after_batches(pool, outcomes.drop_last()).absorb(outcomes.last())
    }
}

/// However many batches a pool takes in, and whatever they came to, it stays
/// sound: no two entries of the result list have the same phrase, no bucket
/// of the capped band holds more than the cap, and the iteration counter is
/// at or ahead of the length of the list. It holds of outcomes that have no
/// more candidates than blocks gone through, as long as the list's length is
/// a number that the counter can hold.
pub proof fn lemma_run_sound(pool: PoolView, outcomes: Seq<OutcomeView>)
    requires
        pool.sound(),
        forall|i: int|
            0 <= i < outcomes.len() ==> (#[trigger] outcomes[i]).candidates.len()
                <= outcomes[i].processed,
        after_batches(pool, outcomes).store.entries.len() <= u64::MAX,
    ensures
        after_batches(pool, outcomes).sound(),
        after_batches(pool, outcomes).store.policy == pool.store.policy,
        distinct(after_batches(pool, outcomes).store.entries),
        forall|w: usize|
            pool.store.policy.in_band(w as nat) ==> #[trigger] bucket_size(
                after_batches(pool, outcomes).store.entries,
                w,
            ) <= pool.store.policy.cap,
        after_batches(pool, outcomes).iterations >= after_batches(
            pool,
            outcomes,
        ).store.entries.len(),
        after_batches(pool, outcomes).iterations >= pool.iterations,
        after_batches(pool, outcomes).store.entries.len() >= pool.store.entries.len(),
    decreases outcomes.len(),
{
    if outcomes.len() > 0 {
        let before = after_batches(pool, outcomes.drop_last());
        lemma_grows(pool, outcomes.drop_last());
        lemma_offer_all(before.store, outcomes.last().candidates);
        lemma_run_sound(pool, outcomes.drop_last());
        lemma_absorb_sound(before, outcomes.last());
    }
}

/// Taking batches in never shortens the result list.
proof fn lemma_grows(pool: PoolView, outcomes: Seq<OutcomeView>)
    requires
        pool.store.well_formed(),
    ensures
        after_batches(pool, outcomes).store.well_formed(),
        after_batches(pool, outcomes).store.entries.len() >= pool.store.entries.len(),
    decreases outcomes.len(),
{
    if outcomes.len() > 0 {
        lemma_grows(pool, outcomes.drop_last());
        lemma_offer_all(after_batches(pool, outcomes.drop_last()).store, outcomes.last().candidates);
    }
}

/// The shared state of a worker pool.
pub struct WorkerPool {
    num_workers: usize,
    batch_size: usize,
    use_gpu: bool,
    iterations: u64,
    store: ResultStore,
}

impl View for WorkerPool {
    type V = PoolView;

    closed spec fn view(&self) -> PoolView {
        PoolView {
            num_workers: self.num_workers as nat,
            batch_size: self.batch_size as nat,
            use_gpu: self.use_gpu,
            iterations: self.iterations as nat,
            store: self.store@,
        }
    }
}

impl WorkerPool {
    #[verifier::type_invariant]
    spec fn sound(self) -> bool {
        self@.sound()
    }

    /// The pool before any work, with the capped band starting at
    /// `DEFAULT_BAND_START`. It has at least one worker.
    pub fn new(
        num_workers: usize,
        batch_size: usize,
        threshold: usize,
        count_per_threshold: usize,
        use_gpu: bool,
    ) -> (pool: WorkerPool)
        ensures
            pool@ == PoolView::start(
                num_workers as nat,
                batch_size as nat,
                Policy {
                    threshold,
                    band_start: crate::store::DEFAULT_BAND_START,
                    cap: count_per_threshold,
                },
                use_gpu,
            ),
            pool@.sound(),
    {
        WorkerPool::with_policy(
            num_workers,
            batch_size,
            Policy::new(threshold, count_per_threshold),
            use_gpu,
        )
    }

    /// The pool before any work, under the given policy. It has at least one
    /// worker.
    pub fn with_policy(num_workers: usize, batch_size: usize, policy: Policy, use_gpu: bool) -> (pool:
        WorkerPool)
        ensures
            pool@ == PoolView::start(num_workers as nat, batch_size as nat, policy, use_gpu),
            pool@.sound(),
    {
        let num_workers = if num_workers < 1 {
            1
        } else {
            num_workers
        };
        WorkerPool { num_workers, batch_size, use_gpu, iterations: 0, store: ResultStore::new(policy) }
    }

    /// The number of workers.
    pub fn num_workers(&self) -> (count: usize)
        ensures
            count == self@.num_workers,
            count >= 1,
    {
        proof {
            use_type_invariant(self);
        }
        self.num_workers
    }

    /// The number of blocks in a batch that is not scaled down.
    pub fn batch_size(&self) -> (size: usize)
        ensures
            size == self@.batch_size,
    {
        self.batch_size
    }

    /// The acceptance policy.
    pub fn policy(&self) -> (policy: Policy)
        ensures
            policy == self@.store.policy,
    {
        self.store.policy()
    }

    /// A worker of this pool, for the calling thread.
    pub fn worker(&self) -> (worker: Worker)
        ensures
            worker@ == (WorkerView {
                batch_size: self@.batch_size,
                threshold: self@.store.policy.threshold as nat,
            }),
    {
        Worker::new(self.batch_size, self.store.policy().threshold, self.use_gpu)
    }

    /// The iteration counter: the number of blocks that the workers went
    /// through, as far as their batches were taken in. It is never less than
    /// the length of the result list.
    pub fn get_iterations(&self) -> (iterations: u64)
        ensures
            iterations == self@.iterations,
            iterations >= self@.store.entries.len(),
    {
        proof {
            use_type_invariant(self);
        }
        self.iterations
    }

    /// Takes in what one batch came to: the counter moves by the blocks gone
    /// through, then each candidate is offered to the store, in order. What
    /// the store accepted is handed back, as the list now ends with it.
    pub fn absorb(&mut self, outcome: BatchOutcome) -> (accepted: Vec<(String, usize)>)
        ensures
            final(self)@ == old(self)@.absorb(outcome@),
            final(self)@.sound(),
            final(self)@.store.entries == old(self)@.store.entries + entries_of(accepted@),
    {
        proof {
            use_type_invariant(&*self);
            lemma_empty_well_formed(self.store@.policy);
            lemma_offer_all(self.store@, outcome@.candidates);
        }
        let ghost before = self@;
        let ghost phrases = outcome@.candidates;
        let processed = outcome.processed();
        let mut store = ResultStore::new(self.store.policy());
        std::mem::swap(&mut store, &mut self.store);
        proof {
            store.lemma_len_fits();
        }
        self.iterations = self.iterations.saturating_add(processed as u64);
        let candidates = outcome.into_candidates();
        let mut accepted: Vec<(String, usize)> = Vec::new();
        proof {
            assert(before.store.entries + entries_of(accepted@) =~= before.store.entries);
        }
        for candidate in it: candidates.into_iter()
            invariant
                it.seq().len() == phrases.len(),
                forall|i: int| 0 <= i < phrases.len() ==> (#[trigger] it.seq()[i])@ == phrases[i],
                store@ == offer_all(before.store, phrases.take(it.index())),
                store@.well_formed(),
                store@.entries.len() <= usize::MAX,
                store@.entries == before.store.entries + entries_of(accepted@),
        {
            proof {
                let i = it.index();
                assert(phrases.take(i + 1).drop_last() =~= phrases.take(i));
                lemma_offer_well_formed(store@, candidate@);
            }
            let entry = (candidate.phrase().clone(), candidate.weight());
            let ghost held = accepted@;
            if store.offer(candidate) {
                accepted.push(entry);
                assert(entries_of(accepted@) =~= entries_of(held).push((entry.0@, entry.1)));
            }
        }
        proof {
            assert(phrases.take(phrases.len() as int) =~= phrases);
        }
        self.store = store;
        accepted
    }

    /// The length of the result list.
    pub fn result_count(&self) -> (count: usize)
        ensures
            count == self@.store.entries.len(),
            count <= self@.iterations,
    {
        proof {
            use_type_invariant(self);
        }
        self.store.len()
    }

    /// Gives the result list up, once every worker has ended: phrase and
    /// weight, in the order of acceptance. No phrase stands in it twice, no
    /// bucket of the capped band holds more than the cap, and it is no
    /// longer than the iteration counter says.
    pub fn into_results(self) -> (results: Vec<(String, usize)>)
        ensures
            entries_of(results@) == self@.store.entries,
            distinct(entries_of(results@)),
            forall|w: usize|
                self@.store.policy.in_band(w as nat) ==> #[trigger] bucket_size(
                    entries_of(results@),
                    w,
                ) <= self@.store.policy.cap,
            results@.len() <= self@.iterations,
            self@.sound(),
    {
        proof {
            use_type_invariant(&self);
        }
        self.store.into_results()
    }
}

} // verus!
