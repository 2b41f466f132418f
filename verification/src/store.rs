//! The result store: the list of accepted phrases and the count of each
//! bucket, changed together in one step.
//!
//! A bucket is the set of accepted phrases of one character weight. Weights
//! at or above the rejection threshold are never accepted. Below it, the
//! weights from the band's start on form the capped band, where a bucket
//! takes a phrase only while it holds fewer than the cap; under the band a
//! bucket takes every phrase. No phrase is accepted twice.

use std::collections::HashMap;
use vstd::prelude::*;

use crate::phrase::{weight_of, Candidate};

verus! {

broadcast use vstd::std_specs::hash::group_hash_axioms;

/// The rejection threshold where none is given.
pub const DEFAULT_THRESHOLD: usize = 46;

/// The weight at which the capped band starts where none is given.
pub const DEFAULT_BAND_START: usize = 43;

/// The cap of a bucket in the capped band where none is given.
pub const DEFAULT_CAP: usize = 5;

/// The acceptance policy.
#[derive(Clone, Copy, Debug, PartialEq, Eq, Structural)]
pub struct Policy {
    /// Weights at or above it are rejected.
    pub threshold: usize,
    /// The capped band runs from it up to the threshold.
    pub band_start: usize,
    /// The most phrases that a bucket in the capped band takes.
    pub cap: usize,
}

impl Policy {
    /// Whether `weight` lies in the capped band.
    pub open spec fn in_band(self, weight: nat) -> bool {
        self.band_start <= weight < self.threshold
    }

    /// Whether a phrase of `weight` is admitted to a bucket that holds
    /// `bucket` phrases.
    pub open spec fn admits(self, weight: nat, bucket: nat) -> bool {
        weight < self.threshold && (weight < self.band_start || bucket < self.cap)
    }

    /// The policy with the given threshold and cap, the band starting at
    /// `DEFAULT_BAND_START`.
    pub fn new(threshold: usize, cap: usize) -> (policy: Policy)
        ensures
            policy == (Policy { threshold, band_start: DEFAULT_BAND_START, cap }),
    {
        Policy { threshold, band_start: DEFAULT_BAND_START, cap }
    }

    /// Whether a phrase of `weight` is admitted to a bucket that holds
    /// `bucket` phrases.
    pub fn allows(&self, weight: usize, bucket: usize) -> (admitted: bool)
        ensures
            admitted == self.admits(weight as nat, bucket as nat),
    {
        weight < self.threshold && (weight < self.band_start || bucket < self.cap)
    }
}

impl Default for Policy {
    fn default() -> (policy: Policy)
        ensures
            policy == (Policy {
                threshold: DEFAULT_THRESHOLD,
                band_start: DEFAULT_BAND_START,
                cap: DEFAULT_CAP,
            }),
    {
        Policy { threshold: DEFAULT_THRESHOLD, band_start: DEFAULT_BAND_START, cap: DEFAULT_CAP }
    }
}

/// The entries of the given weight.
pub open spec fn has_weight(weight: usize) -> spec_fn((Seq<char>, usize)) -> bool {
    |e: (Seq<char>, usize)| e.1 == weight
}

/// The number of entries of a result list that have the given weight.
pub open spec fn bucket_size(entries: Seq<(Seq<char>, usize)>, weight: usize) -> nat {
    entries.filter(has_weight(weight)).len()
}

/// Whether a result list holds the given phrase.
pub open spec fn holds(entries: Seq<(Seq<char>, usize)>, phrase: Seq<char>) -> bool {
    exists|i: int| 0 <= i < entries.len() && (#[trigger] entries[i]).0 == phrase
}

/// Whether no two entries of a result list have the same phrase.
pub open spec fn distinct(entries: Seq<(Seq<char>, usize)>) -> bool {
    forall|i: int, j: int|
        0 <= i < j < entries.len() ==> (#[trigger] entries[i]).0 != (#[trigger] entries[j]).0
}

/// What a list of results holds: each phrase with its weight.
pub open spec fn entries_of(results: Seq<(String, usize)>) -> Seq<(Seq<char>, usize)> {
    Seq::new(results.len(), |i: int| (results[i].0@, results[i].1))
}

/// What a result store holds.
pub struct StoreView {
    /// The acceptance policy.
    pub policy: Policy,
    /// The result list: phrase and weight, in the order of acceptance.
    pub entries: Seq<(Seq<char>, usize)>,
    /// The bucket counts, by weight.
    pub counts: Map<usize, nat>,
}

impl StoreView {
    /// The store that holds nothing.
    pub open spec fn empty(policy: Policy) -> StoreView {
        StoreView { policy, entries: Seq::empty(), counts: Map::empty() }
    }

    /// What holds of every store: no phrase occurs twice; every entry has the
    /// weight of its phrase, below the threshold; every bucket count is the
    /// number of entries of that weight; and no bucket of the capped band
    /// holds more than the cap.
    pub open spec fn well_formed(self) -> bool {
        &&& distinct(self.entries)
        &&& forall|i: int|
            0 <= i < self.entries.len() ==> {
                let e = #[trigger] self.entries[i];
                e.1 == weight_of(e.0) && e.1 < self.policy.threshold
            }
        &&& forall|w: usize| #[trigger]
            bucket_size(self.entries, w) == if self.counts.contains_key(w) {
                self.counts[w]
            } else {
                0
            }
        &&& forall|w: usize|
            self.policy.in_band(w as nat) ==> #[trigger] bucket_size(self.entries, w)
                <= self.policy.cap
    }

    /// Whether the store accepts `phrase`: its policy admits the phrase's
    /// weight to the bucket as it stands, and the list does not hold the
    /// phrase yet.
    pub open spec fn accepts(self, phrase: Seq<char>) -> bool {
        &&& self.policy.admits(
            weight_of(phrase),
            bucket_size(self.entries, weight_of(phrase) as usize),
        )
        &&& !holds(self.entries, phrase)
    }

    /// The store after `phrase` was offered to it. A weight at or above the
    /// threshold leaves it as it was. Any other makes sure that the weight
    /// has a bucket count, and an accepted phrase is appended to the list
    /// and counted.
    pub open spec fn offer(self, phrase: Seq<char>) -> StoreView {
        if weight_of(phrase) >= self.policy.threshold {
            self
        } else {
            let weight = weight_of(phrase) as usize;
            let entries = if self.accepts(phrase) {
                self.entries.push((phrase, weight))
            } else {
                self.entries
            };
            StoreView {
                policy: self.policy,
                entries,
                counts: self.counts.insert(weight, bucket_size(entries, weight)),
            }
        }
    }
}

/// One more entry adds one to the bucket of its weight and to no other.
pub proof fn lemma_bucket_push(entries: Seq<(Seq<char>, usize)>, entry: (Seq<char>, usize), w: usize)
    ensures
        bucket_size(entries.push(entry), w) == bucket_size(entries, w) + if entry.1 == w {
            1nat
        } else {
            0nat
        },
        bucket_size(entries, w) <= entries.len(),
{
    entries.lemma_filter_len_push(has_weight(w), entry);
    entries.lemma_filter_len(has_weight(w));
}

/// The empty store is well formed.
pub proof fn lemma_empty_well_formed(policy: Policy)
    ensures
        StoreView::empty(policy).well_formed(),
{
}

/// An offer keeps a store well formed, whatever is offered: in particular no
/// phrase comes to stand twice in the list, and no bucket of the capped band
/// comes to hold more than the cap. The list only grows, by the offered
/// phrase and only where the store accepts it.
pub proof fn lemma_offer_well_formed(store: StoreView, phrase: Seq<char>)
    requires
        store.well_formed(),
    ensures
        store.offer(phrase).well_formed(),
        store.offer(phrase).policy == store.policy,
        store.offer(phrase).entries == if store.accepts(phrase) {
            store.entries.push((phrase, weight_of(phrase) as usize))
        } else {
            store.entries
        },
{
    let after = store.offer(phrase);
    if weight_of(phrase) < store.policy.threshold {
        let weight = weight_of(phrase) as usize;
        if store.accepts(phrase) {
            let entry = (phrase, weight);
            assert forall|w: usize| #[trigger]
                bucket_size(after.entries, w) == bucket_size(store.entries, w) + if weight == w {
                    1nat
                } else {
                    0nat
                } by {
                lemma_bucket_push(store.entries, entry, w);
            }
        }
    }
}

/// Under the capped band nothing is ever turned away for want of room: a
/// phrase whose weight is below the band's start and below the threshold is
/// accepted unless the list holds it already, however many phrases of that
/// weight the list holds.
pub proof fn lemma_below_band_unbounded(store: StoreView, phrase: Seq<char>)
    requires
        weight_of(phrase) < store.policy.band_start,
        weight_of(phrase) < store.policy.threshold,
    ensures
        store.accepts(phrase) <==> !holds(store.entries, phrase),
        store.accepts(phrase) ==> bucket_size(
            store.offer(phrase).entries,
            weight_of(phrase) as usize,
        ) == bucket_size(store.entries, weight_of(phrase) as usize) + 1,
{
    lemma_bucket_push(store.entries, (phrase, weight_of(phrase) as usize), weight_of(phrase) as usize);
}

/// The store after each of `phrases` was offered to it, first to last.
pub open spec fn offer_all(store: StoreView, phrases: Seq<Seq<char>>) -> StoreView
    decreases phrases.len(),
{
    if phrases.len() == 0 {
        store
    } else {
        offer_all(store, phrases.drop_last()).offer(phrases.last())
    }
}

/// Offering phrases one after another keeps a store well formed and its
/// policy as it was. The list only grows, at its end and by no more than was
/// offered: what it held stays where it was.
pub proof fn lemma_offer_all(store: StoreView, phrases: Seq<Seq<char>>)
    requires
        store.well_formed(),
    ensures
        offer_all(store, phrases).well_formed(),
        offer_all(store, phrases).policy == store.policy,
        store.entries.len() <= offer_all(store, phrases).entries.len() <= store.entries.len()
            + phrases.len(),
        offer_all(store, phrases).entries.take(store.entries.len() as int) == store.entries,
    decreases phrases.len(),
{
    if phrases.len() > 0 {
        let before = offer_all(store, phrases.drop_last());
        lemma_offer_all(store, phrases.drop_last());
        lemma_offer_well_formed(before, phrases.last());
    }
}

/// Under the capped band a bucket keeps growing: phrases of one weight
/// below the band's start and below the threshold, none of them held yet
/// and no two of them the same, are all accepted, however many they are.
/// The list holds afterwards what it held before and what was offered.
pub proof fn lemma_below_band_grows(store: StoreView, phrases: Seq<Seq<char>>, weight: usize)
    requires
        weight < store.policy.band_start,
        weight < store.policy.threshold,
        forall|i: int|
            0 <= i < phrases.len() ==> weight_of(#[trigger] phrases[i]) == weight && !holds(
                store.entries,
                phrases[i],
            ),
        forall|i: int, j: int| 0 <= i < j < phrases.len() ==> phrases[i] != phrases[j],
    ensures
        offer_all(store, phrases).policy == store.policy,
        offer_all(store, phrases).entries.len() == store.entries.len() + phrases.len(),
        bucket_size(offer_all(store, phrases).entries, weight) == bucket_size(store.entries, weight)
            + phrases.len(),
        forall|p: Seq<char>|
            #![trigger holds(offer_all(store, phrases).entries, p)]
            holds(offer_all(store, phrases).entries, p) <==> holds(store.entries, p)
                || phrases.contains(p),
    decreases phrases.len(),
{
    if phrases.len() > 0 {
        let earlier = phrases.drop_last();
        let last = phrases.last();
        let before = offer_all(store, earlier);
        let after = offer_all(store, phrases);
        lemma_below_band_grows(store, earlier, weight);
        // The last phrase is not held yet: it was not held at first, and it
        // is none of the earlier phrases.
        assert(!holds(before.entries, last)) by {
            if earlier.contains(last) {
                let i = choose|i: int| 0 <= i < earlier.len() && earlier[i] == last;
                assert(phrases[i] != phrases[phrases.len() - 1]);
            }
        }
        assert(before.accepts(last));
        assert(after.entries == before.entries.push((last, weight)));
        lemma_bucket_push(before.entries, (last, weight), weight);
        assert forall|p: Seq<char>| #![trigger holds(after.entries, p)]
            holds(after.entries, p) <==> holds(store.entries, p) || phrases.contains(p) by {
            if holds(after.entries, p) {
                // It was held before the last offer, or it is the last phrase.
                let i = choose|i: int| 0 <= i < after.entries.len() && after.entries[i].0 == p;
                if i < before.entries.len() {
                    assert(before.entries[i].0 == p);
                    assert(holds(before.entries, p));
                    if earlier.contains(p) {
                        let k = choose|k: int| 0 <= k < earlier.len() && earlier[k] == p;
                        assert(phrases[k] == p);
                    }
                } else {
                    assert(phrases[phrases.len() - 1] == p);
                }
            }
            if holds(store.entries, p) || phrases.contains(p) {
                if holds(store.entries, p) || earlier.contains(p) {
                    // What was held before the last offer is still held.
                    assert(holds(before.entries, p));
                    let i = choose|i: int|
                        0 <= i < before.entries.len() && before.entries[i].0 == p;
                    assert(after.entries[i].0 == p);
                } else {
                    // It is the last phrase, which the offer appended.
                    let k = choose|k: int| 0 <= k < phrases.len() && phrases[k] == p;
                    assert(k == phrases.len() - 1) by {
                        if k < phrases.len() - 1 {
                            assert(earlier[k] == p);
                        }
                    }
                    assert(after.entries[after.entries.len() - 1].0 == p);
                }
            }
        }
    }
}

/// The list and the counts, which change together.
struct Ledger {
    counts: HashMap<usize, usize>,
    results: Vec<(String, usize)>,
}

impl Ledger {
    spec fn entries(&self) -> Seq<(Seq<char>, usize)> {
        entries_of(self.results@)
    }

    spec fn counts(&self) -> Map<usize, nat> {
        Map::new(|w: usize| self.counts@.contains_key(w), |w: usize| self.counts@[w] as nat)
    }

    spec fn under(&self, policy: Policy) -> StoreView {
        StoreView { policy, entries: self.entries(), counts: self.counts() }
    }

    fn new() -> (ledger: Ledger)
        ensures
            forall|policy: Policy| #[trigger] ledger.under(policy) == StoreView::empty(policy),
    {
        let ledger = Ledger { counts: HashMap::new(), results: Vec::new() };
        assert(ledger.entries() =~= Seq::empty());
        assert(ledger.counts() =~= Map::empty());
        ledger
    }

    fn contains(&self, phrase: &String) -> (found: bool)
        ensures
            found == holds(self.entries(), phrase@),
    {
        let mut i: usize = 0;
        while i < self.results.len()
            invariant
                i <= self.results.len(),
                forall|j: int| 0 <= j < i ==> (#[trigger] self.entries()[j]).0 != phrase@,
            decreases self.results.len() - i,
        {
            if self.results[i].0 == *phrase {
                assert(self.entries()[i as int].0 == phrase@);
                return true;
            }
            i = i + 1;
        }
        false
    }

    fn bucket_count(&self, policy: Policy, weight: usize) -> (count: usize)
        requires
            self.under(policy).well_formed(),
        ensures
            count == bucket_size(self.entries(), weight),
    {
        assert(self.counts().contains_key(weight) == self.counts@.contains_key(weight));
        match self.counts.get(&weight) {
            Some(count) => *count,
            None => 0,
        }
    }

    fn offer(&mut self, policy: Policy, candidate: Candidate) -> (accepted: bool)
        requires
            old(self).under(policy).well_formed(),
        ensures
            accepted == old(self).under(policy).accepts(candidate@),
            final(self).under(policy) == old(self).under(policy).offer(candidate@),
            final(self).under(policy).well_formed(),
    {
        let ghost before = self.under(policy);
        proof {
            lemma_offer_well_formed(before, candidate@);
        }
        let weight = candidate.weight();
        if weight >= policy.threshold {
            return false;
        }
        let count = self.bucket_count(policy, weight);
        let accepted = policy.allows(weight, count) && !self.contains(candidate.phrase());
        if accepted {
            let entry = candidate.into_entry();
            proof {
                lemma_bucket_push(before.entries, (entry.0@, entry.1), weight);
            }
            self.results.push(entry);
            assert(count < self.results.len());
            self.counts.insert(weight, count + 1);
            assert(self.entries() =~= before.entries.push((candidate@, weight)));
        } else {
            self.counts.insert(weight, count);
            assert(self.entries() =~= before.entries);
        }
        assert(self.counts() =~= before.offer(candidate@).counts);
        accepted
    }
}

/// The result store.
pub struct ResultStore {
    policy: Policy,
    ledger: Ledger,
}

impl View for ResultStore {
    type V = StoreView;

    closed spec fn view(&self) -> StoreView {
        self.ledger.under(self.policy)
    }
}

impl ResultStore {
    #[verifier::type_invariant]
    spec fn sound(self) -> bool {
        self.ledger.under(self.policy).well_formed()
    }

    /// The length of the result list is a number that the machine holds.
    pub proof fn lemma_len_fits(&self)
        ensures
            self@.entries.len() <= usize::MAX,
    {
        assert(self.ledger.results@.len() == self.ledger.results.len());
    }

    /// The store that holds nothing, under the given policy.
    pub fn new(policy: Policy) -> (store: ResultStore)
        ensures
            store@ == StoreView::empty(policy),
            store@.well_formed(),
            store@.entries.len() <= usize::MAX,
    {
        proof {
            lemma_empty_well_formed(policy);
        }
        ResultStore { policy, ledger: Ledger::new() }
    }

    /// The acceptance policy.
    pub fn policy(&self) -> (policy: Policy)
        ensures
            policy == self@.policy,
    {
        self.policy
    }

    /// The number of entries in the result list.
    pub fn len(&self) -> (len: usize)
        ensures
            len == self@.entries.len(),
            self@.well_formed(),
    {
        proof {
            use_type_invariant(self);
        }
        self.ledger.results.len()
    }

    /// Whether the result list holds `phrase`.
    pub fn contains(&self, phrase: &String) -> (found: bool)
        ensures
            found == holds(self@.entries, phrase@),
    {
        self.ledger.contains(phrase)
    }

    /// The number of entries of the given weight.
    pub fn bucket_count(&self, weight: usize) -> (count: usize)
        ensures
            count == bucket_size(self@.entries, weight),
            self@.policy.in_band(weight as nat) ==> count <= self@.policy.cap,
            self@.well_formed(),
    {
        proof {
            use_type_invariant(self);
        }
        self.ledger.bucket_count(self.policy, weight)
    }

    /// Offers a candidate to the store, and says whether the store accepted
    /// it. The decision and the insertion are one step: the policy is asked
    /// of the bucket as it stands, the list is searched for the phrase, and
    /// an accepted candidate is appended and counted before anything else
    /// can see the store.
    pub fn offer(&mut self, candidate: Candidate) -> (accepted: bool)
        ensures
            accepted == old(self)@.accepts(candidate@),
            final(self)@ == old(self)@.offer(candidate@),
            final(self)@.well_formed(),
            final(self)@.entries.len() <= usize::MAX,
    {
        proof {
            use_type_invariant(&*self);
        }
        let mut ledger = Ledger::new();
        proof {
            lemma_empty_well_formed(self.policy);
        }
        std::mem::swap(&mut ledger, &mut self.ledger);
        let accepted = ledger.offer(self.policy, candidate);
        self.ledger = ledger;
        proof {
            self.lemma_len_fits();
        }
        accepted
    }

    /// The result list: phrase and weight, in the order of acceptance. No
    /// phrase stands in it twice, and no bucket of the capped band holds
    /// more than the cap.
    pub fn results(&self) -> (results: &Vec<(String, usize)>)
        ensures
            entries_of(results@) == self@.entries,
            distinct(entries_of(results@)),
            forall|w: usize|
                self@.policy.in_band(w as nat) ==> #[trigger] bucket_size(entries_of(results@), w)
                    <= self@.policy.cap,
            self@.well_formed(),
    {
        proof {
            use_type_invariant(self);
        }
        &self.ledger.results
    }

    /// Gives the result list up, once nothing is offered any more. No
    /// phrase stands in it twice, and no bucket of the capped band holds
    /// more than the cap.
    pub fn into_results(self) -> (results: Vec<(String, usize)>)
        ensures
            entries_of(results@) == self@.entries,
            distinct(entries_of(results@)),
            forall|w: usize|
                self@.policy.in_band(w as nat) ==> #[trigger] bucket_size(entries_of(results@), w)
                    <= self@.policy.cap,
            self@.well_formed(),
    {
        proof {
            use_type_invariant(&self);
        }
        self.ledger.results
    }
}

} // verus!
