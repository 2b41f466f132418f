use gpuseed::phrase::Candidate;
use gpuseed::store::{
    Policy, ResultStore, DEFAULT_BAND_START, DEFAULT_CAP, DEFAULT_THRESHOLD,
};

/// A phrase of exactly `weight` characters that are not white space, two
/// such phrases being different where their tags are.
fn phrase(weight: usize, tag: usize) -> String {
    let digits = format!("{}", tag);
    assert!(digits.len() < weight);
    let mut text = String::new();
    text.push_str(&digits);
    while text.len() + 1 < weight {
        text.push(if text.len() % 6 == 5 { ' ' } else { 'a' });
    }
    text.push('z');
    let missing = weight - text.replace(' ', "").len();
    for _ in 0..missing {
        text.push('q');
    }
    text
}

fn candidate(weight: usize, tag: usize) -> Candidate {
    let made = Candidate::new(phrase(weight, tag));
    assert_eq!(made.weight(), weight);
    made
}

fn count_with_weight(store: &ResultStore, weight: usize) -> usize {
    store.results().iter().filter(|entry| entry.1 == weight).count()
}

#[test]
fn default_policy() {
    let policy = Policy::default();
    assert_eq!(policy.threshold, 46);
    assert_eq!(policy.band_start, 43);
    assert_eq!(policy.cap, 5);
    assert_eq!(DEFAULT_THRESHOLD, 46);
    assert_eq!(DEFAULT_BAND_START, 43);
    assert_eq!(DEFAULT_CAP, 5);
    assert_eq!(Policy::new(46, 5), policy);
    assert_eq!(Policy::new(50, 7), Policy { threshold: 50, band_start: 43, cap: 7 });
}

#[test]
fn policy_allows_by_band() {
    let policy = Policy::default();
    assert!(policy.allows(0, 0));
    assert!(policy.allows(42, 1_000_000));
    assert!(policy.allows(43, 4));
    assert!(!policy.allows(43, 5));
    assert!(policy.allows(45, 0));
    assert!(!policy.allows(45, 6));
    assert!(!policy.allows(46, 0));
    assert!(!policy.allows(usize::MAX, 0));
}

#[test]
fn new_store_is_empty() {
    let store = ResultStore::new(Policy::default());
    assert_eq!(store.len(), 0);
    assert!(store.results().is_empty());
    assert_eq!(store.bucket_count(44), 0);
    assert_eq!(store.policy(), Policy::default());
    assert!(store.into_results().is_empty());
}

#[test]
fn accepted_phrase_is_appended_with_its_weight() {
    let mut store = ResultStore::new(Policy::default());
    assert!(store.offer(candidate(40, 1)));
    assert!(store.offer(candidate(44, 2)));
    assert!(store.offer(candidate(12, 3)));
    assert_eq!(store.len(), 3);
    let results = store.results();
    assert_eq!(results[0], (phrase(40, 1), 40));
    assert_eq!(results[1], (phrase(44, 2), 44));
    assert_eq!(results[2], (phrase(12, 3), 12));
    assert_eq!(store.bucket_count(40), 1);
    assert_eq!(store.bucket_count(44), 1);
    assert_eq!(store.bucket_count(12), 1);
    assert_eq!(store.bucket_count(41), 0);
}

#[test]
fn no_phrase_is_accepted_twice() {
    let mut store = ResultStore::new(Policy::default());
    assert!(store.offer(candidate(30, 7)));
    assert!(!store.offer(candidate(30, 7)));
    assert!(store.offer(candidate(44, 7)));
    assert!(!store.offer(candidate(44, 7)));
    assert!(!store.offer(candidate(30, 7)));
    assert_eq!(store.len(), 2);
    assert_eq!(store.bucket_count(30), 1);
    assert_eq!(store.bucket_count(44), 1);
    assert!(store.contains(&phrase(30, 7)));
    assert!(!store.contains(&phrase(30, 8)));
}

#[test]
fn result_list_never_holds_a_phrase_twice() {
    let mut store = ResultStore::new(Policy { threshold: 60, band_start: 50, cap: 3 });
    for round in 0..4 {
        for tag in 0..25 {
            let weight = 20 + (tag * 7 + round) % 40;
            store.offer(candidate(weight, tag % 9));
        }
    }
    let results = store.into_results();
    assert!(!results.is_empty());
    for i in 0..results.len() {
        for j in (i + 1)..results.len() {
            assert_ne!(results[i].0, results[j].0);
        }
    }
}

#[test]
fn capped_band_takes_no_more_than_the_cap() {
    let mut store = ResultStore::new(Policy::default());
    for weight in 43..46 {
        for tag in 0..20 {
            let accepted = store.offer(candidate(weight, tag));
            assert_eq!(accepted, tag < 5);
        }
    }
    for weight in 43..46 {
        assert_eq!(store.bucket_count(weight), 5);
        assert_eq!(count_with_weight(&store, weight), 5);
    }
    assert_eq!(store.len(), 15);
}

#[test]
fn bucket_count_is_the_number_of_entries_of_that_weight() {
    let mut store = ResultStore::new(Policy { threshold: 30, band_start: 20, cap: 4 });
    for tag in 0..60 {
        store.offer(candidate(10 + tag % 25, tag));
        for weight in 0..40 {
            assert_eq!(store.bucket_count(weight), count_with_weight(&store, weight));
            if (20..30).contains(&weight) {
                assert!(store.bucket_count(weight) <= 4);
            }
        }
    }
}

#[test]
fn below_the_band_nothing_is_capped() {
    let mut store = ResultStore::new(Policy::default());
    let mut expected = [0usize; 3];
    for tag in 0..300 {
        let bucket = tag % 3;
        let weight = 40 + bucket;
        assert!(store.offer(candidate(weight, tag)));
        expected[bucket] += 1;
        assert_eq!(store.bucket_count(weight), expected[bucket]);
    }
    assert_eq!(store.len(), 300);
    assert_eq!(store.bucket_count(40), 100);
    assert_eq!(store.bucket_count(41), 100);
    assert_eq!(store.bucket_count(42), 100);
}

#[test]
fn threshold_and_above_is_rejected() {
    let mut store = ResultStore::new(Policy::default());
    assert!(!store.offer(candidate(46, 1)));
    assert!(!store.offer(candidate(47, 2)));
    assert!(!store.offer(candidate(120, 3)));
    assert!(store.offer(candidate(45, 4)));
    assert_eq!(store.len(), 1);
    assert_eq!(store.bucket_count(46), 0);
}

#[test]
fn band_that_starts_at_the_threshold_is_empty() {
    let mut store = ResultStore::new(Policy { threshold: 20, band_start: 20, cap: 1 });
    for tag in 0..10 {
        assert!(store.offer(candidate(19, tag)));
    }
    assert!(!store.offer(candidate(20, 0)));
    assert_eq!(store.len(), 10);

    let mut store = ResultStore::new(Policy { threshold: 20, band_start: 30, cap: 1 });
    for tag in 0..10 {
        assert!(store.offer(candidate(19, tag)));
    }
    assert!(!store.offer(candidate(25, 0)));
    assert_eq!(store.len(), 10);
}

#[test]
fn cap_of_zero_takes_nothing_in_the_band() {
    let mut store = ResultStore::new(Policy { threshold: 46, band_start: 43, cap: 0 });
    assert!(!store.offer(candidate(43, 1)));
    assert!(!store.offer(candidate(45, 2)));
    assert!(store.offer(candidate(42, 3)));
    assert_eq!(store.len(), 1);
}

#[test]
fn duplicate_does_not_use_up_the_cap() {
    let mut store = ResultStore::new(Policy { threshold: 46, band_start: 43, cap: 2 });
    assert!(store.offer(candidate(44, 1)));
    assert!(!store.offer(candidate(44, 1)));
    assert!(!store.offer(candidate(44, 1)));
    assert!(store.offer(candidate(44, 2)));
    assert!(!store.offer(candidate(44, 3)));
    assert_eq!(store.bucket_count(44), 2);
}

#[test]
fn rejected_offers_leave_the_list_as_it_was() {
    let mut store = ResultStore::new(Policy { threshold: 46, band_start: 43, cap: 1 });
    assert!(store.offer(candidate(44, 1)));
    let before = store.results().clone();
    assert!(!store.offer(candidate(44, 2)));
    assert!(!store.offer(candidate(44, 1)));
    assert!(!store.offer(candidate(50, 3)));
    assert_eq!(store.results(), &before);
}
