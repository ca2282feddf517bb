//! The scrape pipeline's control state.
//!
//! Two tasks cooperate: a producer discovers contract ids page by page and a
//! consumer fetches each contract's details. The decisions — when to keep
//! going, how the page count and the failure counter evolve, which page to
//! query next — live here as plain state transitions; the channels, tasks
//! and HTTP calls around them are not the library's concern.

use vstd::prelude::*;

use crate::progress::ScrapeProgress;

verus! {

/// Contracts per portal page.
pub const MAX_PAGE_SIZE: usize = 50;

/// Consecutive page failures tolerated while the total page count is still
/// unknown; reaching it ends the run rather than hammering a dead portal.
pub const MAX_CONSECUTIVE_FAILURES: usize = 10;

/// Concurrent outbound requests, and the capacity of the id channel between
/// the two tasks.
pub const MAX_CONCURRENT_REQUESTS: usize = 5;

/// Outbound portal requests allowed per second, across both tasks.
pub const MAX_REQUESTS_PER_SECOND: u32 = 5;

/// A discovered contract: its id and the page it was found on.
#[derive(Clone, Copy, PartialEq, Eq, Structural, Debug)]
pub struct ContractLocation {
    pub id: u64,
    pub page: usize,
}

/// The id-discovery task's state: the next page to query, the portal's page
/// count once learned, and the consecutive-failure counter.
#[derive(Clone, Copy, PartialEq, Eq, Structural, Debug)]
pub struct ProducerState {
    pub current_page: usize,
    pub total_pages: Option<usize>,
    pub consecutive_failures: usize,
}

/// How the known page count changes when the portal reports `total` hits:
/// it grows to `total / MAX_PAGE_SIZE` when that is more than what was
/// known.
pub open spec fn spec_new_total(old_total: Option<usize>, total: int) -> Option<usize> {
    let fresh = total / (MAX_PAGE_SIZE as int);
    match old_total {
        None => Some(fresh as usize),
        Some(t) => if t < fresh {
            Some(fresh as usize)
        } else {
            Some(t)
        },
    }
}

impl ProducerState {
    /// Whether discovery goes on: below the page count once it is known,
    /// and below the failure bound until then.
    pub open spec fn spec_should_continue(self) -> bool {
        match self.total_pages {
            Some(t) => self.current_page < t,
            None => self.consecutive_failures < MAX_CONSECUTIVE_FAILURES,
        }
    }

    /// A fresh run: page zero, page count unknown, no failures.
    pub fn new() -> (r: ProducerState)
        ensures
            r.current_page == 0,
            r.total_pages is None,
            r.consecutive_failures == 0,
    {
        ProducerState { current_page: 0, total_pages: None, consecutive_failures: 0 }
    }

    /// Whether to fetch another page of ids.
    pub fn should_continue(&self) -> (r: bool)
        ensures
            r == self.spec_should_continue(),
    {
        match self.total_pages {
            Some(t) => self.current_page < t,
            None => self.consecutive_failures < MAX_CONSECUTIVE_FAILURES,
        }
    }

    /// Jump the cursor past pages the ledger already holds, landing on the
    /// first page at or after it that is unsaved or pending.
    pub fn skip_completed(&mut self, progress: &ScrapeProgress)
        requires
            progress.wf(),
            exists|v: int|
                old(self).current_page as int <= v <= usize::MAX as int
                    && !progress.saved().contains(v),
        ensures
            old(self).current_page <= final(self).current_page,
            !progress.saved().contains(final(self).current_page as int)
                || progress.pending().dom().contains(final(self).current_page as int),
            forall|p: int|
                old(self).current_page as int <= p < final(self).current_page as int
                    ==> progress.saved().contains(p) && !progress.pending().dom().contains(p),
            final(self).total_pages == old(self).total_pages,
            final(self).consecutive_failures == old(self).consecutive_failures,
    {
        self.current_page = progress.get_next_page_to_query(self.current_page);
    }

    /// Count one failed page fetch (the counter stops at its ceiling rather
    /// than wrapping).
    pub fn on_page_failure(&mut self)
        ensures
            final(self).current_page == old(self).current_page,
            final(self).total_pages == old(self).total_pages,
            old(self).consecutive_failures < usize::MAX ==> final(self).consecutive_failures
                == old(self).consecutive_failures + 1,
            old(self).consecutive_failures == usize::MAX ==> final(self).consecutive_failures
                == usize::MAX,
    {
        if self.consecutive_failures < usize::MAX {
            self.consecutive_failures += 1;
        }
    }

    /// Record a successful page fetch that reported `total` matching
    /// contracts: the page count grows if the report says so, the failure
    /// counter resets, and the cursor moves to the next page.
    pub fn on_page_success(&mut self, total: usize)
        requires
            old(self).current_page < usize::MAX,
        ensures
            final(self).current_page == old(self).current_page + 1,
            final(self).consecutive_failures == 0,
            final(self).total_pages == spec_new_total(old(self).total_pages, total as int),
    {
        let fresh = total / MAX_PAGE_SIZE;
        let grown = match self.total_pages {
            None => true,
            Some(t) => t < fresh,
        };
        if grown {
            self.total_pages = Some(fresh);
        }
        self.consecutive_failures = 0;
        self.current_page += 1;
    }
}

/// Law (bootstrap bound): while the page count is unknown, a producer that
/// has failed `MAX_CONSECUTIVE_FAILURES` times in a row stops.
pub proof fn lemma_bootstrap_bound(s: ProducerState)
    requires
        s.total_pages is None,
        s.consecutive_failures >= MAX_CONSECUTIVE_FAILURES,
    ensures
        !s.spec_should_continue(),
{
}

/// Law (termination once the count is known): a producer whose cursor has
/// reached the known page count stops, whatever its failure counter says.
pub proof fn lemma_terminates_at_total(s: ProducerState)
    requires
        s.total_pages is Some,
        s.current_page >= s.total_pages.unwrap(),
    ensures
        !s.spec_should_continue(),
{
}

} // verus!
