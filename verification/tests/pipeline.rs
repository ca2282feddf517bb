//! End-to-end pipeline scenarios, with the portal, the channel and both
//! stores simulated in the test.

use std::collections::{HashMap, HashSet, VecDeque};

use contratos::pipeline::{
    ContractLocation, ProducerState, MAX_CONSECUTIVE_FAILURES, MAX_PAGE_SIZE,
};
use contratos::progress::{PendingPage, ScrapeProgress};

/// One page of the fake portal: the reported total and the page's ids.
type PortalPage = (usize, Vec<u64>);

/// Run the producer loop against a fake portal, pushing discovered ids on
/// the queue. Returns how many page fetches were attempted.
fn run_producer(
    portal: &HashMap<usize, PortalPage>,
    progress: &ScrapeProgress,
    queue: &mut VecDeque<ContractLocation>,
) -> usize {
    let mut state = ProducerState::new();
    let mut fetches = 0;
    while state.should_continue() {
        state.skip_completed(progress);
        fetches += 1;
        match portal.get(&state.current_page) {
            Some((total, ids)) => {
                for id in ids {
                    queue.push_back(ContractLocation { id: *id, page: state.current_page });
                }
                let total = *total;
                state.on_page_success(total);
            }
            None => {
                state.on_page_failure();
            }
        }
    }
    fetches
}

/// Drain the queue like the consumer: skip already-seen ids, fetch details
/// (failing once per id listed in `fail_once`), persist to the fake stores
/// and the ledger, and re-enqueue failures. Returns the per-id detail-fetch
/// counts.
fn run_consumer(
    queue: &mut VecDeque<ContractLocation>,
    progress: &mut ScrapeProgress,
    relational: &mut HashMap<u64, usize>,
    index: &mut HashMap<u64, usize>,
    fail_once: &[u64],
) -> HashMap<u64, usize> {
    let mut failed: HashSet<u64> = HashSet::new();
    let mut calls: HashMap<u64, usize> = HashMap::new();
    while let Some(ContractLocation { id, page }) = queue.pop_front() {
        if progress.already_exists(id, page) {
            continue;
        }
        *calls.entry(id).or_insert(0) += 1;
        if fail_once.contains(&id) && failed.insert(id) {
            // transport error: best-effort retry through the channel
            queue.push_back(ContractLocation { id, page });
            continue;
        }
        // "fetched details": persist to both stores, then the ledger
        relational.insert(id, page);
        index.insert(id, page);
        progress.update(page, MAX_PAGE_SIZE, id);
    }
    calls
}

#[test]
fn fresh_run_over_two_full_pages() {
    let mut portal: HashMap<usize, PortalPage> = HashMap::new();
    portal.insert(0, (100, (1..=50).collect()));
    portal.insert(1, (100, (51..=100).collect()));

    let mut progress = ScrapeProgress::new();
    let mut queue = VecDeque::new();
    run_producer(&portal, &progress, &mut queue);

    let mut relational = HashMap::new();
    let mut index = HashMap::new();
    run_consumer(&mut queue, &mut progress, &mut relational, &mut index, &[]);

    assert!(progress.saved_pages.contains(&0));
    assert!(progress.saved_pages.contains(&1));
    assert!(progress.pending_pages.is_empty());
    assert_eq!(relational.len(), 100);
    assert_eq!(index.len(), 100);
}

#[test]
fn resumption_after_partial_page() {
    let mut progress = ScrapeProgress::from_parts(
        vec![],
        vec![PendingPage { page: 0, ids: vec![1001, 1002, 1003] }],
    )
    .unwrap();

    let mut portal: HashMap<usize, PortalPage> = HashMap::new();
    portal.insert(0, (50, (1001..=1050).collect()));

    let mut queue = VecDeque::new();
    run_producer(&portal, &progress, &mut queue);

    let mut relational = HashMap::new();
    let mut index = HashMap::new();
    let calls = run_consumer(&mut queue, &mut progress, &mut relational, &mut index, &[]);

    // the three ids already in the ledger are not fetched again
    assert!(!calls.contains_key(&1001));
    assert!(!calls.contains_key(&1002));
    assert!(!calls.contains_key(&1003));
    let total_detail_fetches: usize = calls.values().sum();
    assert_eq!(total_detail_fetches, 47);
    assert!(progress.saved_pages.contains(&0));
    assert!(progress.pending_pages.is_empty());
}

#[test]
fn retry_on_detail_failure() {
    let mut progress = ScrapeProgress::new();
    let mut queue = VecDeque::new();
    queue.push_back(ContractLocation { id: 42, page: 0 });

    let mut relational = HashMap::new();
    let mut index = HashMap::new();
    let calls = run_consumer(
        &mut queue,
        &mut progress,
        &mut relational,
        &mut index,
        &[42],
    );

    assert_eq!(calls.get(&42), Some(&2));
    assert!(relational.contains_key(&42));
    assert!(index.contains_key(&42));
    assert!(progress.already_exists(42, 0));
}

#[test]
fn consecutive_failure_bootstrap_bound() {
    // the portal fails on every page from the start
    let portal: HashMap<usize, PortalPage> = HashMap::new();
    let progress = ScrapeProgress::new();
    let mut queue = VecDeque::new();
    let fetches = run_producer(&portal, &progress, &mut queue);

    assert_eq!(fetches, MAX_CONSECUTIVE_FAILURES);
    assert!(queue.is_empty());
}

#[test]
fn saving_twice_leaves_the_same_state() {
    // the dual-store write is idempotent end to end
    let mut once = ScrapeProgress::new();
    let mut twice = ScrapeProgress::new();
    let mut rel_once: HashMap<u64, usize> = HashMap::new();
    let mut rel_twice: HashMap<u64, usize> = HashMap::new();

    once.update(0, MAX_PAGE_SIZE, 7);
    rel_once.entry(7).or_insert(0);

    twice.update(0, MAX_PAGE_SIZE, 7);
    rel_twice.entry(7).or_insert(0);
    twice.update(0, MAX_PAGE_SIZE, 7);
    rel_twice.entry(7).or_insert(0);

    assert_eq!(once.saved_pages.ranges, twice.saved_pages.ranges);
    assert_eq!(once.pending_pages.len(), twice.pending_pages.len());
    assert_eq!(once.pending_pages[0].ids, twice.pending_pages[0].ids);
    assert_eq!(rel_once, rel_twice);
}
