//! The resumable progress ledger of the scraper.
//!
//! A page is *saved* once every contract on it has been persisted; until then
//! the contract ids already seen on it are kept as a *pending* entry. The
//! ledger tells a restarted run which page to query next and which contract
//! details it can skip.

use vstd::prelude::*;

use crate::rangeset::RangeSet;

verus! {

/// Contract ids seen so far on one page that is not yet complete.
pub struct PendingPage {
    /// The page number.
    pub page: usize,
    /// The distinct contract ids persisted from this page, in first-seen order.
    pub ids: Vec<u64>,
}

/// The mathematical state of a ledger: the set of fully saved pages and, for
/// each pending page, the set of contract ids already seen on it.
pub struct LedgerState {
    pub saved: Set<int>,
    pub pending: Map<int, Set<int>>,
}

/// The set of ids held by a pending entry's id list.
pub open spec fn ids_set(ids: Seq<u64>) -> Set<int> {
    ids.map_values(|id: u64| id as int).to_set()
}

/// Whether some pending entry is for page `p`.
pub open spec fn has_page(pending: Seq<PendingPage>, p: int) -> bool {
    exists|i: int| 0 <= i < pending.len() && (#[trigger] pending[i]).page as int == p
}

/// The index of the pending entry for page `p` (meaningful when pages are
/// unique and `has_page` holds).
pub open spec fn find_page(pending: Seq<PendingPage>, p: int) -> int {
    choose|i: int| 0 <= i < pending.len() && (#[trigger] pending[i]).page as int == p
}

/// The map from pending page number to its set of seen ids.
pub open spec fn pending_map_of(pending: Seq<PendingPage>) -> Map<int, Set<int>> {
    Map::new(
        |p: int| has_page(pending, p),
        |p: int| ids_set(pending[find_page(pending, p)].ids@),
    )
}

/// No two pending entries are for the same page.
pub open spec fn pages_unique(pending: Seq<PendingPage>) -> bool {
    forall|i: int, j: int|
        0 <= i < j < pending.len() ==> (#[trigger] pending[i]).page != (#[trigger] pending[j]).page
}

/// One `update` step at the level of [`LedgerState`]: a saved page is left
/// alone; otherwise the id joins the page's pending set, and the page moves
/// to saved once that set has at least `contracts_per_page` ids.
pub open spec fn spec_update(m: LedgerState, page: int, contracts_per_page: int, id: int) -> LedgerState {
    if m.saved.contains(page) {
        m
    } else {
        let prev = if m.pending.dom().contains(page) {
            m.pending[page]
        } else {
            Set::<int>::empty()
        };
        let u = prev.insert(id);
        if u.len() >= contracts_per_page {
            LedgerState { saved: m.saved.insert(page), pending: m.pending.remove(page) }
        } else {
            LedgerState { saved: m.saved, pending: m.pending.insert(page, u) }
        }
    }
}

/// Record of which pages are fully scraped and which contract ids have been
/// seen on the pages still in progress.
pub struct ScrapeProgress {
    /// The fully ingested pages, as a compact interval set.
    pub saved_pages: RangeSet,
    /// One entry per page that has been started but not finished.
    pub pending_pages: Vec<PendingPage>,
}

impl ScrapeProgress {
    /// Internal invariant: the interval set is well formed, pending pages are
    /// unique, ids within an entry are unique, and no pending page is saved.
    pub open spec fn wf(self) -> bool {
        &&& self.saved_pages.wf()
        &&& pages_unique(self.pending_pages@)
        &&& forall|i: int|
            0 <= i < self.pending_pages@.len() ==> (#[trigger] self.pending_pages@[i]).ids@.map_values(
                |id: u64| id as int,
            ).no_duplicates()
        &&& forall|i: int|
            0 <= i < self.pending_pages@.len() ==> !self.saved_pages@.contains(
                (#[trigger] self.pending_pages@[i]).page as int,
            )
    }

    /// The set of fully saved pages.
    pub open spec fn saved(self) -> Set<int> {
        self.saved_pages@
    }

    /// The map from pending page to the ids seen on it.
    pub open spec fn pending(self) -> Map<int, Set<int>> {
        pending_map_of(self.pending_pages@)
    }

    /// The ledger's mathematical state.
    pub open spec fn model(self) -> LedgerState {
        LedgerState { saved: self.saved(), pending: self.pending() }
    }

    /// An empty ledger: nothing saved, nothing pending.
    pub fn new() -> (r: ScrapeProgress)
        ensures
            r.wf(),
            r.saved() == Set::<int>::empty(),
            r.pending() =~= Map::<int, Set<int>>::empty(),
    {
        let r = ScrapeProgress { saved_pages: RangeSet::new(), pending_pages: Vec::new() };
        proof {
            assert(r.pending().dom() =~= Set::<int>::empty());
        }
        r
    }

    /// Record that contract `id` of page `page` has been persisted. A saved
    /// page is left untouched; otherwise the id is added to the page's
    /// pending entry, and once that entry holds `contracts_per_page` ids the
    /// page moves to the saved set and the entry is dropped.
    pub fn update(&mut self, page: usize, contracts_per_page: usize, id: u64)
        requires
            old(self).wf(),
        ensures
            final(self).wf(),
            final(self).model() == spec_update(
                old(self).model(),
                page as int,
                contracts_per_page as int,
                id as int,
            ),
            old(self).saved().contains(page as int) ==> *final(self) == *old(self),
    {
        proof {
            vstd::set_lib::lemma_set_empty_equivalency_len(Set::<int>::empty());
        }
        if self.saved_pages.contains(&page) {
            return;
        }

        let ghost m0 = self.model();
        let n = self.pending_pages.len();
        let mut found: usize = 0;
        while found < n && self.pending_pages[found].page != page
            invariant
                found <= n,
                n == self.pending_pages@.len(),
                forall|k: int|
                    0 <= k < found ==> (#[trigger] self.pending_pages@[k]).page != page,
            decreases n - found,
        {
            found += 1;
        }

        if found == n {
            // No pending entry yet: the page's id set becomes {id}.
            proof {
                lemma_page_absent(self.pending_pages@, page as int);
            }
            if contracts_per_page <= 1 {
                self.saved_pages.insert(page);
                proof {
                    vstd::set::axiom_set_insert_len(Set::<int>::empty(), id as int);
                    assert(self.pending() =~= m0.pending.remove(page as int));
                    assert(self.model() == spec_update(
                        m0,
                        page as int,
                        contracts_per_page as int,
                        id as int,
                    ));
                }
            } else {
                let mut ids: Vec<u64> = Vec::new();
                ids.push(id);
                self.pending_pages.push(PendingPage { page, ids });
                proof {
                    let p1 = self.pending_pages@;
                    let ghost new_entry = p1.last();
                    assert(p1 == old(self).pending_pages@.push(new_entry));
                    lemma_update_wf_after_edit(*old(self), *self, page as int);
                    lemma_ids_set_empty();
                    lemma_ids_set_push(Seq::<u64>::empty(), id);
                    assert(ids_set(new_entry.ids@) =~= Set::<int>::empty().insert(id as int));
                    vstd::set::axiom_set_insert_len(Set::<int>::empty(), id as int);
                    lemma_pending_maps_after_push(old(self).pending_pages@, new_entry);
                    assert(self.pending() =~= m0.pending.insert(
                        page as int,
                        Set::<int>::empty().insert(id as int),
                    ));
                    assert(self.model() == spec_update(
                        m0,
                        page as int,
                        contracts_per_page as int,
                        id as int,
                    ));
                }
            }
        } else {
            let mut entry = self.pending_pages.remove(found);
            let ghost p0 = old(self).pending_pages@;
            let ghost ids0 = entry.ids@;
            proof {
                lemma_find_is(p0, found as int);
                assert(m0.pending.dom().contains(page as int));
                assert(m0.pending[page as int] == ids_set(ids0));
            }
            let present = ids_contain(&entry.ids, id);
            if !present {
                entry.ids.push(id);
            }
            proof {
                if !present {
                    lemma_ids_set_push(ids0, id);
                    lemma_mapped_push_no_dup(ids0, id);
                }
                assert(ids_set(entry.ids@) =~= ids_set(ids0).insert(id as int));
                lemma_ids_set_len(entry.ids@);
            }
            if entry.ids.len() >= contracts_per_page {
                self.saved_pages.insert(page);
                proof {
                    let p1 = self.pending_pages@;
                    assert(p1 == p0.remove(found as int));
                    lemma_update_wf_after_remove(*old(self), *self, found as int, page as int);
                    assert(self.pending() =~= m0.pending.remove(page as int)) by {
                        lemma_pending_maps_match_removed(p0, p1, found as int, page as int);
                    }
                    assert(self.model() == spec_update(
                        m0,
                        page as int,
                        contracts_per_page as int,
                        id as int,
                    ));
                }
            } else {
                self.pending_pages.insert(found, entry);
                proof {
                    let p1 = self.pending_pages@;
                    let ghost new_entry = p1[found as int];
                    assert(p1 =~= p0.update(found as int, new_entry));
                    lemma_pending_maps_after_update(p0, found as int, new_entry);
                    lemma_update_wf_after_edit(*old(self), *self, page as int);
                    assert(self.pending() =~= m0.pending.insert(
                        page as int,
                        ids_set(ids0).insert(id as int),
                    ));
                    assert(self.model() == spec_update(
                        m0,
                        page as int,
                        contracts_per_page as int,
                        id as int,
                    ));
                }
            }
        }
    }
}

impl ScrapeProgress {
    /// Whether contract `id` of page `page` has already been persisted: the
    /// page is fully saved, or the id is among the page's pending ids.
    pub fn already_exists(&self, id: u64, page: usize) -> (r: bool)
        requires
            self.wf(),
        ensures
            r == (self.saved().contains(page as int) || (self.pending().dom().contains(
                page as int,
            ) && self.pending()[page as int].contains(id as int))),
    {
        if self.saved_pages.contains(&page) {
            return true;
        }
        let n = self.pending_pages.len();
        let mut i: usize = 0;
        while i < n
            invariant
                i <= n,
                n == self.pending_pages@.len(),
                self.wf(),
                forall|k: int|
                    0 <= k < i ==> (#[trigger] self.pending_pages@[k]).page != page,
            decreases n - i,
        {
            if self.pending_pages[i].page == page {
                proof {
                    lemma_find_is(self.pending_pages@, i as int);
                }
                return ids_contain(&self.pending_pages[i].ids, id);
            }
            i += 1;
        }
        proof {
            lemma_page_absent(self.pending_pages@, page as int);
        }
        false
    }

    /// The next page worth querying at or after `current_page`: the first
    /// page that is not fully saved, except that a pending page closer to
    /// `current_page` is preferred. Every page before the result is saved and
    /// has no pending entry, so no work is skipped.
    pub fn get_next_page_to_query(&self, current_page: usize) -> (r: usize)
        requires
            self.wf(),
            exists|v: int|
                current_page as int <= v <= usize::MAX as int && !self.saved().contains(v),
        ensures
            current_page <= r,
            !self.saved().contains(r as int) || self.pending().dom().contains(r as int),
            forall|p: int|
                current_page as int <= p < r as int ==> self.saved().contains(p)
                    && !self.pending().dom().contains(p),
    {
        let first_missing = self.saved_pages.get_first_missing(current_page);
        let n = self.pending_pages.len();
        let mut best = first_missing;
        let mut i: usize = 0;
        while i < n
            invariant
                i <= n,
                n == self.pending_pages@.len(),
                self.wf(),
                current_page <= best <= first_missing,
                best == first_missing || exists|j: int|
                    0 <= j < i && (#[trigger] self.pending_pages@[j]).page == best,
                forall|k: int|
                    0 <= k < i && (#[trigger] self.pending_pages@[k]).page >= current_page
                        ==> best <= self.pending_pages@[k].page,
            decreases n - i,
        {
            let p = self.pending_pages[i].page;
            if p >= current_page && p < best {
                best = p;
            }
            i += 1;
        }
        proof {
            if best != first_missing {
                let j = choose|j: int|
                    0 <= j < n && (#[trigger] self.pending_pages@[j]).page == best;
                lemma_find_is(self.pending_pages@, j);
            }
            assert forall|p: int|
                current_page as int <= p < best as int implies self.saved().contains(p)
                    && !self.pending().dom().contains(p) by {
                if has_page(self.pending_pages@, p) {
                    let k = choose|k: int|
                        0 <= k < self.pending_pages@.len() && (
                        #[trigger] self.pending_pages@[k]).page as int == p;
                    assert(best <= self.pending_pages@[k].page);
                    assert(false);
                }
            }
        }
        best
    }

    /// Rebuild a ledger from stored parts, refusing parts that break the
    /// invariant: a malformed range list, a duplicate pending page, duplicate
    /// ids on a page, or a pending entry for an already saved page.
    pub fn from_parts(saved_ranges: Vec<(usize, usize)>, pending: Vec<PendingPage>) -> (r: Option<
        ScrapeProgress,
    >)
        ensures
            r is Some <==> parts_ok(saved_ranges@, pending@),
            r is Some ==> r.unwrap().wf() && r.unwrap().saved_pages.ranges@ == saved_ranges@
                && r.unwrap().pending_pages@ == pending@,
    {
        let ghost ranges0 = saved_ranges@;
        let saved_pages = match RangeSet::from_ranges(saved_ranges) {
            Some(rs) => rs,
            None => {
                return None;
            },
        };
        let n = pending.len();
        let mut i: usize = 0;
        while i < n
            invariant
                i <= n,
                n == pending@.len(),
                saved_pages.wf(),
                saved_pages.ranges@ == ranges0,
                ranges0 == saved_ranges@,
                forall|a: int, b: int|
                    0 <= a < b < i ==> (#[trigger] pending@[a]).page != (
                    #[trigger] pending@[b]).page,
                forall|a: int|
                    0 <= a < i ==> (#[trigger] pending@[a]).ids@.map_values(
                        |id: u64| id as int,
                    ).no_duplicates(),
                forall|a: int|
                    0 <= a < i ==> !saved_pages@.contains((#[trigger] pending@[a]).page as int),
            decreases n - i,
        {
            let entry_page = pending[i].page;
            if saved_pages.contains(&entry_page) {
                proof {
                    assert(crate::rangeset::in_ranges(
                        ranges0,
                        (#[trigger] pending@[i as int]).page as int,
                    ));
                }
                return None;
            }
            let mut j: usize = 0;
            while j < i
                invariant
                    j <= i < n,
                    n == pending@.len(),
                    entry_page == pending@[i as int].page,
                    forall|b: int| 0 <= b < j ==> (#[trigger] pending@[b]).page != entry_page,
                decreases i - j,
            {
                if pending[j].page == entry_page {
                    proof {
                        assert((#[trigger] pending@[j as int]).page == (
                        #[trigger] pending@[i as int]).page);
                        assert(!pages_unique(pending@));
                    }
                    return None;
                }
                j += 1;
            }
            if !ids_no_dup(&pending[i].ids) {
                proof {
                    assert(!(#[trigger] pending@[i as int]).ids@.map_values(
                        |id: u64| id as int,
                    ).no_duplicates());
                }
                return None;
            }
            i += 1;
        }
        Some(ScrapeProgress { saved_pages, pending_pages: pending })
    }
}

/// What stored ledger parts must satisfy to be accepted.
pub open spec fn parts_ok(ranges: Seq<(usize, usize)>, pending: Seq<PendingPage>) -> bool {
    &&& crate::rangeset::ranges_wf(ranges)
    &&& pages_unique(pending)
    &&& forall|i: int|
        0 <= i < pending.len() ==> (#[trigger] pending[i]).ids@.map_values(
            |id: u64| id as int,
        ).no_duplicates()
    &&& forall|i: int|
        0 <= i < pending.len() ==> !crate::rangeset::in_ranges(
            ranges,
            (#[trigger] pending[i]).page as int,
        )
}

/// Whether the ids of a pending entry are pairwise distinct.
fn ids_no_dup(ids: &Vec<u64>) -> (r: bool)
    ensures
        r == ids@.map_values(|id: u64| id as int).no_duplicates(),
{
    let n = ids.len();
    let mut a: usize = 0;
    while a < n
        invariant
            a <= n,
            n == ids@.len(),
            forall|x: int, y: int| 0 <= x < y < a ==> ids@[x] != ids@[y],
            forall|x: int, y: int| 0 <= x < a && x < y < n ==> ids@[x] != ids@[y],
        decreases n - a,
    {
        let mut b: usize = a + 1;
        while b < n
            invariant
                a < b,
                a < n,
                n == ids@.len(),
                forall|y: int| a < y < b ==> ids@[a as int] != ids@[y],
            decreases n - b,
        {
            if ids[a] == ids[b] {
                proof {
                    let mapped = ids@.map_values(|id: u64| id as int);
                    assert(mapped[a as int] == mapped[b as int]);
                }
                return false;
            }
            b += 1;
        }
        a += 1;
    }
    proof {
        let mapped = ids@.map_values(|id: u64| id as int);
        assert forall|x: int, y: int|
            0 <= x < mapped.len() && 0 <= y < mapped.len() && x != y implies mapped[x]
            != mapped[y] by {
            if x < y {
                assert(ids@[x] != ids@[y]);
            } else {
                assert(ids@[y] != ids@[x]);
            }
        }
    }
    true
}

/// Whether `id` occurs in `ids`, phrased over the id set.
fn ids_contain(ids: &Vec<u64>, id: u64) -> (r: bool)
    ensures
        r == ids_set(ids@).contains(id as int),
{
    let n = ids.len();
    let mut i: usize = 0;
    while i < n
        invariant
            i <= n,
            n == ids@.len(),
            forall|k: int| 0 <= k < i ==> (#[trigger] ids@[k]) != id,
        decreases n - i,
    {
        if ids[i] == id {
            proof {
                assert(ids@.map_values(|x: u64| x as int)[i as int] == id as int);
                assert(ids@.map_values(|x: u64| x as int).contains(id as int));
            }
            return true;
        }
        i += 1;
    }
    proof {
        let mapped = ids@.map_values(|x: u64| x as int);
        if mapped.contains(id as int) {
            let k = choose|k: int| 0 <= k < mapped.len() && mapped[k] == id as int;
            assert(ids@[k] != id);
            assert(false);
        }
    }
    false
}

/// If no entry is for page `p`, the pending map has no key `p`.
proof fn lemma_page_absent(pending: Seq<PendingPage>, p: int)
    requires
        forall|i: int| 0 <= i < pending.len() ==> (#[trigger] pending[i]).page as int != p,
    ensures
        !has_page(pending, p),
        !pending_map_of(pending).dom().contains(p),
{
}

/// The entry index found by scanning is the one `find_page` picks.
proof fn lemma_find_is(pending: Seq<PendingPage>, i: int)
    requires
        pages_unique(pending),
        0 <= i < pending.len(),
    ensures
        has_page(pending, pending[i].page as int),
        find_page(pending, pending[i].page as int) == i,
{
    let p = pending[i].page as int;
    assert(has_page(pending, p));
    let j = find_page(pending, p);
    if i < j {
        assert(pending[i].page != pending[j].page);
    } else if j < i {
        assert(pending[j].page != pending[i].page);
    }
}

/// Appending an entry for a page without one binds that page in the pending
/// map and leaves every other page alone.
proof fn lemma_pending_maps_after_push(p0: Seq<PendingPage>, entry: PendingPage)
    requires
        pages_unique(p0),
        forall|i: int| 0 <= i < p0.len() ==> (#[trigger] p0[i]).page != entry.page,
    ensures
        pages_unique(p0.push(entry)),
        pending_map_of(p0.push(entry)) =~= pending_map_of(p0).insert(
            entry.page as int,
            ids_set(entry.ids@),
        ),
{
    let p1 = p0.push(entry);
    let pe = entry.page as int;
    assert forall|i: int, j: int| 0 <= i < j < p1.len() implies (#[trigger] p1[i]).page != (
    #[trigger] p1[j]).page by {
        if j == p0.len() {
            assert(p1[i] == p0[i]);
        }
    }
    assert(p1[p0.len() as int] == entry);
    assert(has_page(p1, pe));
    lemma_find_is(p1, p0.len() as int);
    assert forall|q: int| #![auto] pending_map_of(p1).dom().contains(q) == pending_map_of(
        p0,
    ).insert(pe, ids_set(entry.ids@)).dom().contains(q) by {
        if q != pe {
            if has_page(p0, q) {
                let i = choose|i: int|
                    0 <= i < p0.len() && (#[trigger] p0[i]).page as int == q;
                assert(p1[i] == p0[i]);
                assert(has_page(p1, q));
            }
            if has_page(p1, q) {
                let j = choose|j: int|
                    0 <= j < p1.len() && (#[trigger] p1[j]).page as int == q;
                assert(j != p0.len());
                assert(p0[j] == p1[j]);
                assert(has_page(p0, q));
            }
        }
    }
    assert forall|q: int| pending_map_of(p1).dom().contains(q) implies pending_map_of(p1)[q]
        == pending_map_of(p0).insert(pe, ids_set(entry.ids@))[q] by {
        if q == pe {
            assert(find_page(p1, pe) == p0.len());
        } else {
            let j = find_page(p1, q);
            assert(0 <= j < p1.len() && p1[j].page as int == q);
            assert(j != p0.len());
            assert(p0[j] == p1[j]);
            lemma_find_is(p0, j);
        }
    }
}

/// Replacing the entry at `at` by one for the same page rebinds that page in
/// the pending map and leaves every other page alone.
proof fn lemma_pending_maps_after_update(p0: Seq<PendingPage>, at: int, entry: PendingPage)
    requires
        pages_unique(p0),
        0 <= at < p0.len(),
        entry.page == p0[at].page,
    ensures
        pages_unique(p0.update(at, entry)),
        pending_map_of(p0.update(at, entry)) =~= pending_map_of(p0).insert(
            entry.page as int,
            ids_set(entry.ids@),
        ),
{
    let p1 = p0.update(at, entry);
    let pe = entry.page as int;
    assert forall|i: int, j: int| 0 <= i < j < p1.len() implies (#[trigger] p1[i]).page != (
    #[trigger] p1[j]).page by {
        assert(p0[i].page != p0[j].page);
    }
    assert(p1[at] == entry);
    assert(has_page(p1, pe));
    lemma_find_is(p1, at);
    assert forall|q: int| #![auto] pending_map_of(p1).dom().contains(q) == pending_map_of(
        p0,
    ).insert(pe, ids_set(entry.ids@)).dom().contains(q) by {
        if q != pe {
            if has_page(p0, q) {
                let i = choose|i: int|
                    0 <= i < p0.len() && (#[trigger] p0[i]).page as int == q;
                assert(i != at);
                assert(p1[i] == p0[i]);
                assert(has_page(p1, q));
            }
            if has_page(p1, q) {
                let j = choose|j: int|
                    0 <= j < p1.len() && (#[trigger] p1[j]).page as int == q;
                assert(j != at);
                assert(p0[j] == p1[j]);
                assert(has_page(p0, q));
            }
        }
    }
    assert forall|q: int| pending_map_of(p1).dom().contains(q) implies pending_map_of(p1)[q]
        == pending_map_of(p0).insert(pe, ids_set(entry.ids@))[q] by {
        if q == pe {
            assert(find_page(p1, pe) == at);
        } else {
            let j = find_page(p1, q);
            assert(0 <= j < p1.len() && p1[j].page as int == q);
            assert(j != at);
            assert(p0[j] == p1[j]);
            lemma_find_is(p0, j);
        }
    }
}

/// After removing the entry for `page`, the pending map is the old one with
/// the key `page` removed.
proof fn lemma_pending_maps_match_removed(
    p0: Seq<PendingPage>,
    p1: Seq<PendingPage>,
    at: int,
    page: int,
)
    requires
        pages_unique(p0),
        0 <= at < p0.len(),
        p0[at].page as int == page,
        p1 == p0.remove(at),
    ensures
        pending_map_of(p1) =~= pending_map_of(p0).remove(page),
{
    assert(pages_unique(p1)) by {
        assert forall|i: int, j: int| 0 <= i < j < p1.len() implies (#[trigger] p1[i]).page != (
        #[trigger] p1[j]).page by {
            let i0 = if i < at { i } else { i + 1 };
            let j0 = if j < at { j } else { j + 1 };
            assert(p1[i] == p0[i0] && p1[j] == p0[j0]);
        }
    }
    assert forall|q: int| #![auto] pending_map_of(p1).dom().contains(q) == pending_map_of(
        p0,
    ).remove(page).dom().contains(q) by {
        if q == page {
            if has_page(p1, q) {
                let j = find_page(p1, q);
                let j0 = if j < at { j } else { j + 1 };
                assert(p0[j0] == p1[j]);
                assert(p0[j0].page != p0[at].page);
                assert(false);
            }
        } else {
            if has_page(p0, q) {
                let i = find_page(p0, q);
                let i1 = if i < at { i } else { i - 1 };
                assert(p1[i1] == p0[i]);
                assert(has_page(p1, q));
            }
            if has_page(p1, q) {
                let j = find_page(p1, q);
                let j0 = if j < at { j } else { j + 1 };
                assert(p0[j0] == p1[j]);
                assert(has_page(p0, q));
            }
        }
    }
    assert forall|q: int| pending_map_of(p1).dom().contains(q) implies pending_map_of(p1)[q]
        == pending_map_of(p0)[q] by {
        let j = find_page(p1, q);
        let j0 = if j < at { j } else { j + 1 };
        assert(p0[j0] == p1[j]);
        lemma_find_is(p0, j0);
    }
}

/// An empty id list holds no ids.
proof fn lemma_ids_set_empty()
    ensures
        ids_set(Seq::<u64>::empty()) =~= Set::<int>::empty(),
{
    let mapped = Seq::<u64>::empty().map_values(|x: u64| x as int);
    assert forall|x: int| !ids_set(Seq::<u64>::empty()).contains(x) by {
        assert(mapped.len() == 0);
    }
}

/// Appending an id to a list adds it to the id set.
proof fn lemma_ids_set_push(ids: Seq<u64>, id: u64)
    ensures
        ids_set(ids.push(id)) =~= ids_set(ids).insert(id as int),
{
    let m0 = ids.map_values(|x: u64| x as int);
    let m1 = ids.push(id).map_values(|x: u64| x as int);
    assert forall|x: int| ids_set(ids.push(id)).contains(x) implies ids_set(ids).insert(
        id as int,
    ).contains(x) by {
        let k = choose|k: int| 0 <= k < m1.len() && m1[k] == x;
        if k < ids.len() {
            assert(m0[k] == x);
            assert(m0.contains(x));
        }
    }
    assert forall|x: int| ids_set(ids).insert(id as int).contains(x) implies ids_set(
        ids.push(id),
    ).contains(x) by {
        if x == id as int {
            assert(m1[ids.len() as int] == x);
            assert(m1.contains(x));
        } else {
            let k = choose|k: int| 0 <= k < m0.len() && m0[k] == x;
            assert(m1[k] == x);
            assert(m1.contains(x));
        }
    }
}

/// Appending a fresh id keeps the mapped id list duplicate free.
proof fn lemma_mapped_push_no_dup(ids: Seq<u64>, id: u64)
    requires
        ids.map_values(|x: u64| x as int).no_duplicates(),
        !ids_set(ids).contains(id as int),
    ensures
        ids.push(id).map_values(|x: u64| x as int).no_duplicates(),
{
    let m0 = ids.map_values(|x: u64| x as int);
    let m1 = ids.push(id).map_values(|x: u64| x as int);
    assert forall|i: int, j: int| 0 <= i < m1.len() && 0 <= j < m1.len() && i != j implies m1[i]
        != m1[j] by {
        if i < m0.len() && j < m0.len() {
            assert(m1[i] == m0[i] && m1[j] == m0[j]);
        } else if i < m0.len() {
            assert(m1[j] == id as int && m1[i] == m0[i]);
            if m0[i] == id as int {
                assert(m0.contains(id as int));
                assert(false);
            }
        } else {
            assert(m1[i] == id as int && m1[j] == m0[j]);
            if m0[j] == id as int {
                assert(m0.contains(id as int));
                assert(false);
            }
        }
    }
}

/// The id-set of a duplicate-free id list has the list's length.
proof fn lemma_ids_set_len(ids: Seq<u64>)
    requires
        ids.map_values(|id: u64| id as int).no_duplicates(),
    ensures
        ids_set(ids).len() == ids.len(),
        ids_set(ids).finite(),
{
    let mapped = ids.map_values(|id: u64| id as int);
    mapped.unique_seq_to_set();
}

/// Well-formedness carries over to a state whose saved set is unchanged or
/// grown by `page`, when every pending entry is one of the old entries or a
/// new entry for `page` with duplicate-free ids not on a saved page.
proof fn lemma_update_wf_after_edit(s0: ScrapeProgress, s1: ScrapeProgress, page: int)
    requires
        s0.wf(),
        s1.saved_pages == s0.saved_pages,
        pages_unique(s1.pending_pages@),
        forall|i: int|
            0 <= i < s1.pending_pages@.len() ==> (#[trigger] s1.pending_pages@[i]).ids@.map_values(
                |id: u64| id as int,
            ).no_duplicates(),
        forall|i: int|
            0 <= i < s1.pending_pages@.len() ==> !s0.saved_pages@.contains(
                (#[trigger] s1.pending_pages@[i]).page as int,
            ),
    ensures
        s1.wf(),
{
}

/// Well-formedness after removing pending entry `at` and saving its page.
proof fn lemma_update_wf_after_remove(s0: ScrapeProgress, s1: ScrapeProgress, at: int, page: int)
    requires
        s0.wf(),
        0 <= at < s0.pending_pages@.len(),
        s0.pending_pages@[at].page as int == page,
        s1.pending_pages@ == s0.pending_pages@.remove(at),
        s1.saved_pages.wf(),
        s1.saved_pages@ == s0.saved_pages@.insert(page),
    ensures
        s1.wf(),
{
    let p0 = s0.pending_pages@;
    let p1 = s1.pending_pages@;
    assert forall|i: int, j: int| 0 <= i < j < p1.len() implies (#[trigger] p1[i]).page != (
    #[trigger] p1[j]).page by {
        let i0 = if i < at { i } else { i + 1 };
        let j0 = if j < at { j } else { j + 1 };
        assert(p1[i] == p0[i0] && p1[j] == p0[j0]);
    }
    assert forall|i: int| 0 <= i < p1.len() implies (#[trigger] p1[i]).ids@.map_values(
        |id: u64| id as int,
    ).no_duplicates() && !s1.saved_pages@.contains(p1[i].page as int) by {
        let i0 = if i < at { i } else { i + 1 };
        assert(p1[i] == p0[i0]);
        if i0 < at {
            assert(p0[i0].page != p0[at].page);
        } else if i0 > at {
            assert(p0[at].page != p0[i0].page);
        }
    }
}


/// Law (saved pages stay put): once a page is saved, a further update for it
/// changes nothing.
pub proof fn lemma_update_saved_noop(m: LedgerState, page: int, cpp: int, id: int)
    requires
        m.saved.contains(page),
    ensures
        spec_update(m, page, cpp, id) == m,
{
}

/// Law (idempotence): applying the same update twice leaves the same ledger
/// state as applying it once.
pub proof fn lemma_update_idempotent(m: LedgerState, page: int, cpp: int, id: int)
    ensures
        spec_update(spec_update(m, page, cpp, id), page, cpp, id) == spec_update(
            m,
            page,
            cpp,
            id,
        ),
{
    let m1 = spec_update(m, page, cpp, id);
    if !m.saved.contains(page) {
        let prev = if m.pending.dom().contains(page) {
            m.pending[page]
        } else {
            Set::<int>::empty()
        };
        let u = prev.insert(id);
        if u.len() < cpp {
            assert(m1.pending[page] == u);
            assert(u.insert(id) =~= u);
            assert(m1.pending.insert(page, u.insert(id)) =~= m1.pending);
            assert(spec_update(m1, page, cpp, id) == m1);
        }
    }
}

/// Folding one `update` per id over a sequence of ids, front to back.
pub open spec fn spec_update_all(m: LedgerState, page: int, cpp: int, ids: Seq<int>) -> LedgerState
    decreases ids.len(),
{
    if ids.len() == 0 {
        m
    } else {
        spec_update_all(spec_update(m, page, cpp, ids[0]), page, cpp, ids.drop_first())
    }
}

/// Dropping the head of a sequence drops it from the set view only.
proof fn lemma_to_set_drop_first(ids: Seq<int>)
    requires
        ids.len() > 0,
    ensures
        ids.to_set() =~= ids.drop_first().to_set().insert(ids[0]),
{
    let rest = ids.drop_first();
    assert forall|x: int| ids.to_set().contains(x) implies rest.to_set().insert(
        ids[0],
    ).contains(x) by {
        let k = choose|k: int| 0 <= k < ids.len() && ids[k] == x;
        if k > 0 {
            assert(rest[k - 1] == x);
            assert(rest.contains(x));
        }
    }
    assert forall|x: int| rest.to_set().insert(ids[0]).contains(x) implies ids.to_set().contains(
        x,
    ) by {
        if x == ids[0] {
            assert(ids.contains(x));
        } else {
            let k = choose|k: int| 0 <= k < rest.len() && rest[k] == x;
            assert(ids[k + 1] == x);
            assert(ids.contains(x));
        }
    }
}

/// Law (what a burst of updates leaves behind): folding an update for every
/// id of `ids` over a ledger depends only on the *set* of ids. A saved page
/// stays untouched; otherwise the page's pending ids grow by the set of
/// `ids`, and the page moves to saved exactly when that union reaches
/// `contracts_per_page` many ids.
pub proof fn lemma_update_all_characterization(m: LedgerState, page: int, cpp: int, ids: Seq<int>)
    requires
        m.pending.dom().contains(page) ==> m.pending[page].finite(),
    ensures
        ({
            let base = if m.pending.dom().contains(page) {
                m.pending[page]
            } else {
                Set::<int>::empty()
            };
            let u = base.union(ids.to_set());
            let res = spec_update_all(m, page, cpp, ids);
            &&& (m.saved.contains(page) ==> res == m)
            &&& (!m.saved.contains(page) && ids.len() > 0 && u.len() >= cpp ==> res
                == LedgerState { saved: m.saved.insert(page), pending: m.pending.remove(page) })
            &&& (!m.saved.contains(page) && ids.len() > 0 && u.len() < cpp ==> res
                == LedgerState { saved: m.saved, pending: m.pending.insert(page, u) })
        }),
    decreases ids.len(),
{
    broadcast use vstd::seq_lib::seq_to_set_is_finite;
    broadcast use vstd::set::axiom_set_union_finite;
    broadcast use vstd::set::axiom_set_insert_finite;

    let base = if m.pending.dom().contains(page) {
        m.pending[page]
    } else {
        Set::<int>::empty()
    };
    let u = base.union(ids.to_set());
    if ids.len() > 0 {
        let id0 = ids[0];
        let rest = ids.drop_first();
        let m1 = spec_update(m, page, cpp, id0);
        lemma_to_set_drop_first(ids);
        if m.saved.contains(page) {
            assert(m1 == m);
            lemma_update_all_characterization(m1, page, cpp, rest);
        } else {
            let u1 = base.insert(id0);
            if u1.len() >= cpp {
                assert(m1.saved.contains(page));
                lemma_update_all_characterization(m1, page, cpp, rest);
                assert(u1 <= u) by {
                    assert(ids.to_set().contains(id0)) by {
                        assert(ids.contains(id0));
                    }
                }
                vstd::set_lib::lemma_len_subset(u1, u);
            } else {
                assert(m1.pending[page] == u1);
                lemma_update_all_characterization(m1, page, cpp, rest);
                let u2 = u1.union(rest.to_set());
                assert(u2 =~= u);
                if rest.len() == 0 {
                    assert(rest.to_set() =~= Set::<int>::empty()) by {
                        assert forall|x: int| !rest.to_set().contains(x) by {
                            assert(rest.len() == 0);
                        }
                    }
                    assert(u =~= u1);
                    assert(spec_update_all(m1, page, cpp, rest) == m1);
                    assert(m1.pending =~= m.pending.insert(page, u));
                } else {
                    assert(!m1.saved.contains(page));
                    if u2.len() >= cpp {
                        assert(m1.pending.remove(page) =~= m.pending.remove(page));
                        assert(spec_update_all(m, page, cpp, ids) == LedgerState {
                            saved: m.saved.insert(page),
                            pending: m.pending.remove(page),
                        });
                    } else {
                        assert(m1.pending.insert(page, u2) =~= m.pending.insert(page, u));
                        assert(spec_update_all(m, page, cpp, ids) == LedgerState {
                            saved: m.saved,
                            pending: m.pending.insert(page, u),
                        });
                    }
                }
            }
        }
    }
}

/// Law (order independence): two bursts of updates with the same set of
/// distinct ids leave the same ledger state, whatever their order or
/// repetitions.
pub proof fn lemma_update_all_order_independent(
    m: LedgerState,
    page: int,
    cpp: int,
    ids1: Seq<int>,
    ids2: Seq<int>,
)
    requires
        m.pending.dom().contains(page) ==> m.pending[page].finite(),
        ids1.to_set() == ids2.to_set(),
    ensures
        spec_update_all(m, page, cpp, ids1) == spec_update_all(m, page, cpp, ids2),
{
    lemma_update_all_characterization(m, page, cpp, ids1);
    lemma_update_all_characterization(m, page, cpp, ids2);
    if ids1.len() == 0 || ids2.len() == 0 {
        // equal id sets force both bursts to be empty or both non-empty
        if ids1.len() > 0 {
            assert(ids1.to_set().contains(ids1[0])) by {
                assert(ids1.contains(ids1[0]));
            }
            assert(false);
        }
        if ids2.len() > 0 {
            assert(ids2.to_set().contains(ids2[0])) by {
                assert(ids2.contains(ids2[0]));
            }
            assert(false);
        }
    } else if !m.saved.contains(page) {
        let base = if m.pending.dom().contains(page) {
            m.pending[page]
        } else {
            Set::<int>::empty()
        };
        assert(base.union(ids1.to_set()) == base.union(ids2.to_set()));
    }
}

/// Law (completion): once the distinct ids seen on a page reach
/// `contracts_per_page`, the page is saved and no longer pending.
pub proof fn lemma_update_all_completes(m: LedgerState, page: int, cpp: int, ids: Seq<int>)
    requires
        m.pending.dom().contains(page) ==> m.pending[page].finite(),
        !m.saved.contains(page),
        ids.len() > 0,
        ids.to_set().len() >= cpp,
    ensures
        spec_update_all(m, page, cpp, ids).saved.contains(page),
        !spec_update_all(m, page, cpp, ids).pending.dom().contains(page),
{
    broadcast use vstd::seq_lib::seq_to_set_is_finite;
    broadcast use vstd::set::axiom_set_union_finite;

    lemma_update_all_characterization(m, page, cpp, ids);
    let base = if m.pending.dom().contains(page) {
        m.pending[page]
    } else {
        Set::<int>::empty()
    };
    let u = base.union(ids.to_set());
    assert(ids.to_set() <= u);
    vstd::set_lib::lemma_len_subset(ids.to_set(), u);
}

} // verus!

