use contratos::progress::{PendingPage, ScrapeProgress};

fn pending_ids(progress: &ScrapeProgress, page: usize) -> Option<Vec<u64>> {
    for entry in &progress.pending_pages {
        if entry.page == page {
            let mut ids = entry.ids.clone();
            ids.sort();
            return Some(ids);
        }
    }
    None
}

#[test]
fn update_collects_ids_until_page_completes() {
    let mut progress = ScrapeProgress::new();
    progress.update(0, 3, 10);
    progress.update(0, 3, 11);
    assert!(!progress.saved_pages.contains(&0));
    assert_eq!(pending_ids(&progress, 0), Some(vec![10, 11]));
    progress.update(0, 3, 12);
    assert!(progress.saved_pages.contains(&0));
    assert_eq!(pending_ids(&progress, 0), None);
}

#[test]
fn update_ignores_duplicate_ids() {
    let mut progress = ScrapeProgress::new();
    progress.update(0, 3, 10);
    progress.update(0, 3, 10);
    progress.update(0, 3, 10);
    assert!(!progress.saved_pages.contains(&0));
    assert_eq!(pending_ids(&progress, 0), Some(vec![10]));
}

#[test]
fn update_on_saved_page_is_noop() {
    let mut progress = ScrapeProgress::new();
    progress.update(7, 1, 100);
    assert!(progress.saved_pages.contains(&7));
    progress.update(7, 1, 200);
    assert!(progress.saved_pages.contains(&7));
    assert_eq!(pending_ids(&progress, 7), None);
    assert!(!progress.already_exists(200, 7) || progress.saved_pages.contains(&7));
}

#[test]
fn update_order_does_not_matter() {
    let ids = [5u64, 9, 2, 7];
    let mut forward = ScrapeProgress::new();
    for id in ids {
        forward.update(3, 10, id);
    }
    let mut backward = ScrapeProgress::new();
    for id in ids.iter().rev() {
        backward.update(3, 10, *id);
    }
    // repetitions make no difference either
    let mut repeated = ScrapeProgress::new();
    for id in ids {
        repeated.update(3, 10, id);
        repeated.update(3, 10, id);
    }
    assert_eq!(forward.saved_pages.ranges, backward.saved_pages.ranges);
    assert_eq!(pending_ids(&forward, 3), pending_ids(&backward, 3));
    assert_eq!(pending_ids(&forward, 3), pending_ids(&repeated, 3));
    assert_eq!(pending_ids(&forward, 3), Some(vec![2, 5, 7, 9]));
}

#[test]
fn already_exists_sees_saved_and_pending() {
    let mut progress = ScrapeProgress::new();
    progress.update(0, 2, 10);
    assert!(progress.already_exists(10, 0));
    assert!(!progress.already_exists(11, 0));
    progress.update(0, 2, 11);
    // page 0 is complete now: every id on it counts as seen
    assert!(progress.already_exists(999, 0));
    assert!(!progress.already_exists(10, 1));
}

#[test]
fn next_page_prefers_pending_and_skips_saved() {
    let mut progress = ScrapeProgress::new();
    progress.update(0, 1, 1);
    progress.update(1, 1, 2);
    progress.update(3, 5, 30);
    // pages 0 and 1 saved, page 3 pending
    assert_eq!(progress.get_next_page_to_query(0), 2);
    assert_eq!(progress.get_next_page_to_query(3), 3);
    assert_eq!(progress.get_next_page_to_query(4), 4);
}

#[test]
fn next_page_on_empty_ledger_is_cursor() {
    let progress = ScrapeProgress::new();
    assert_eq!(progress.get_next_page_to_query(0), 0);
    assert_eq!(progress.get_next_page_to_query(42), 42);
}

#[test]
fn from_parts_round_trip() {
    let progress = ScrapeProgress::from_parts(
        vec![(0, 4), (6, 6)],
        vec![PendingPage { page: 5, ids: vec![1001, 1002] }],
    )
    .unwrap();
    assert!(progress.saved_pages.contains(&4));
    assert!(!progress.saved_pages.contains(&5));
    assert!(progress.already_exists(1001, 5));
    assert!(!progress.already_exists(1003, 5));
    assert_eq!(progress.get_next_page_to_query(0), 5);
}

#[test]
fn from_parts_rejects_broken_state() {
    // malformed range list
    assert!(ScrapeProgress::from_parts(vec![(4, 2)], vec![]).is_none());
    // duplicate pending page
    assert!(ScrapeProgress::from_parts(
        vec![],
        vec![
            PendingPage { page: 1, ids: vec![1] },
            PendingPage { page: 1, ids: vec![2] },
        ],
    )
    .is_none());
    // duplicate ids on one page
    assert!(ScrapeProgress::from_parts(
        vec![],
        vec![PendingPage { page: 1, ids: vec![5, 5] }],
    )
    .is_none());
    // pending entry for a page already saved
    assert!(ScrapeProgress::from_parts(
        vec![(0, 3)],
        vec![PendingPage { page: 2, ids: vec![5] }],
    )
    .is_none());
}
