//! The incremental activity-sync engine.
//!
//! The remote service keeps an append-only activity log per session and
//! serves it one page at a time: a response that carries a next-page
//! token is a *sealed* page the server has advanced past and will never
//! change; a response without one is the *tail*, the one page that may
//! still grow.  The engine therefore caches every sealed page forever in
//! `stable`, replaces `tail` wholesale on every sync, and persists the
//! token that requested the tail as the resume point of the next sync.
//!
//! The caller drives one sync as a loop: it asks [`SyncRun::request_token`]
//! what to request, fetches the page, and hands it to
//! [`SyncRun::feed_sealed`] or, when the response carries no next-page
//! token, to [`SyncRun::finish`].  A remote error simply abandons the
//! run, leaving the persisted state untouched.
//! [`ActivitySyncState::apply_pages`] runs the same loop over an already
//! fetched chain of pages; the laws at the bottom are stated against its
//! page-run model.

use vstd::prelude::*;
use vstd::seq_lib::lemma_flatten_concat;
use crate::activity::{clone_activities, Activity};

verus! {

/// One page of a session's activity log, as the service answers one
/// page request.
#[derive(Debug, PartialEq, Eq)]
pub struct ActivityPage {
    /// The activities of this page, in server order.
    pub activities: Vec<Activity>,
    /// The token that requests the page after this one; absent on the
    /// tail page.
    pub next_page_token: Option<String>,
}

/// The per-session persisted sync state.
///
/// `stable` holds every activity from pages the server has sealed; it
/// only ever grows.  `tail` holds the most recently observed unsealed
/// page and is replaced on every sync.  `continuation_token` is the
/// token that requested the current tail, or absent when the tail
/// starts at the beginning of the log.
#[derive(Debug, PartialEq, Eq)]
pub struct ActivitySyncState {
    pub stable: Vec<Activity>,
    pub tail: Vec<Activity>,
    pub continuation_token: Option<String>,
}

/// The chain of responses of one sync: at least one page, every page
/// before the last sealed (it carries a next-page token), the last one
/// the tail (it does not).
pub open spec fn is_page_run(ps: Seq<ActivityPage>) -> bool {
    &&& ps.len() >= 1
    &&& forall|i: int| 0 <= i < ps.len() - 1 ==> (#[trigger] ps[i]).next_page_token is Some
    &&& ps.last().next_page_token is None
}

/// The activity lists of the pages.
pub open spec fn pages_activities(ps: Seq<ActivityPage>) -> Seq<Seq<Activity>> {
    ps.map_values(|p: ActivityPage| p.activities@)
}

/// The activities of the sealed pages of a run, in fetch order.
pub open spec fn run_sealed(ps: Seq<ActivityPage>) -> Seq<Activity> {
    pages_activities(ps.drop_last()).flatten()
}

/// The activities of the tail page of a run.
pub open spec fn run_tail(ps: Seq<ActivityPage>) -> Seq<Activity> {
    ps.last().activities@
}

/// The token that requested the tail page of a run, given the token the
/// run started from.
pub open spec fn run_token(start: Option<String>, ps: Seq<ActivityPage>) -> Option<String> {
    if ps.len() == 1 {
        start
    } else {
        ps[ps.len() - 2].next_page_token
    }
}

/// An in-progress sync: the stable list with the sealed pages fetched so
/// far appended, and the token the next page request must carry.
#[derive(Debug, PartialEq, Eq)]
pub struct SyncRun {
    /// The stable activities, growing as sealed pages arrive.
    pub stable: Vec<Activity>,
    /// The token for the next page request; absent requests the start
    /// of the log.
    pub request_token: Option<String>,
}

impl SyncRun {
    /// Begins a sync from the persisted state: the first request resumes
    /// at the persisted continuation token.
    pub fn begin(state: ActivitySyncState) -> (r: SyncRun)
        ensures
            r.stable@ == state.stable@,
            r.request_token == state.continuation_token,
    {
        SyncRun { stable: state.stable, request_token: state.continuation_token }
    }

    /// The token to request the next page with.
    pub fn request_token(&self) -> (r: &Option<String>)
        ensures
            *r == self.request_token,
    {
        &self.request_token
    }

    /// Absorbs a sealed page: its activities join the stable list and
    /// its next-page token becomes the next request's token.
    pub fn feed_sealed(&mut self, page: ActivityPage)
        requires
            page.next_page_token is Some,
        ensures
            final(self).stable@ == old(self).stable@ + page.activities@,
            final(self).request_token == page.next_page_token,
    {
        let ActivityPage { mut activities, next_page_token } = page;
        self.stable.append(&mut activities);
        self.request_token = next_page_token;
    }

    /// Absorbs the tail page and closes the run: the page's activities
    /// become the new tail, and the token that requested them becomes
    /// the persisted resume point.
    pub fn finish(self, page: ActivityPage) -> (st: ActivitySyncState)
        requires
            page.next_page_token is None,
        ensures
            st.stable@ == self.stable@,
            st.tail@ == page.activities@,
            st.continuation_token == self.request_token,
    {
        ActivitySyncState {
            stable: self.stable,
            tail: page.activities,
            continuation_token: self.request_token,
        }
    }
}

impl ActivitySyncState {
    /// The state before the first sync: everything empty.
    pub fn new() -> (r: ActivitySyncState)
        ensures
            r.stable@ == Seq::<Activity>::empty(),
            r.tail@ == Seq::<Activity>::empty(),
            r.continuation_token is None,
    {
        ActivitySyncState { stable: Vec::new(), tail: Vec::new(), continuation_token: None }
    }

    /// The full cached log, `stable ++ tail`, without remote contact.
    pub fn read_cached(&self) -> (log: Vec<Activity>)
        ensures
            log@ == self.stable@ + self.tail@,
    {
        let mut log = clone_activities(&self.stable);
        let mut t = clone_activities(&self.tail);
        log.append(&mut t);
        log
    }

    /// Runs one sync over an already fetched chain of page responses:
    /// the sealed pages join `stable`, the last page replaces `tail`,
    /// and the token that requested the last page is the new resume
    /// point.
    pub fn apply_pages(self, pages: Vec<ActivityPage>) -> (r: ActivitySyncState)
        requires
            is_page_run(pages@),
        ensures
            r.stable@ == self.stable@ + run_sealed(pages@),
            r.tail@ == run_tail(pages@),
            r.continuation_token == run_token(self.continuation_token, pages@),
    {
        let ghost all = pages@;
        let ghost tok0 = self.continuation_token;
        let ghost stable0 = self.stable@;
        let mut pages = pages;
        let mut run = SyncRun::begin(self);
        proof {
            assert(all.take(0) =~= Seq::<ActivityPage>::empty());
            assert(pages_activities(all.take(0)) =~= Seq::<Seq<Activity>>::empty());
            assert(run.stable@ =~= stable0 + pages_activities(all.take(0)).flatten());
            assert(all.skip(0) =~= all);
        }
        while pages.len() > 1
            invariant
                is_page_run(all),
                1 <= pages@.len() <= all.len(),
                pages@ == all.skip(all.len() - pages@.len()),
                run.stable@ == stable0 + pages_activities(
                    all.take(all.len() - pages@.len()),
                ).flatten(),
                run.request_token == if pages@.len() == all.len() {
                    tok0
                } else {
                    all[all.len() - pages@.len() - 1].next_page_token
                },
            decreases pages@.len(),
        {
            let ghost k = all.len() - pages@.len();
            let page = pages.remove(0);
            proof {
                assert(all.skip(k)[0] == all[k]);
                assert(page == all[k]);
                assert(all.skip(k).drop_first() =~= all.skip(k + 1));
                assert(k < all.len() - 1);
                assert(all[k].next_page_token is Some);
            }
            run.feed_sealed(page);
            proof {
                let before = pages_activities(all.take(k));
                assert(pages_activities(all.take(k + 1)) =~= before.push(all[k].activities@));
                before.lemma_flatten_push(all[k].activities@);
                assert(run.stable@ =~= stable0 + pages_activities(all.take(k + 1)).flatten());
            }
        }
        let ghost k = all.len() - 1;
        let page = pages.remove(0);
        proof {
            assert(pages@.len() == 0);
            assert(all.skip(k)[0] == all[k]);
            assert(page == all[k]);
            assert(all[k] == all.last());
        }
        let st = run.finish(page);
        proof {
            assert(all.take(k) =~= all.drop_last());
            assert(st.stable@ =~= stable0 + run_sealed(all));
        }
        st
    }
}

/// Pagination idempotence: a sync whose one page is the unchanged tail
/// page returns the same log, leaves `stable` as it was, and keeps the
/// resume token.
pub proof fn lemma_sync_idempotent(st: ActivitySyncState, ps: Seq<ActivityPage>)
    requires
        is_page_run(ps),
        ps.len() == 1,
        ps[0].activities@ == st.tail@,
    ensures
        st.stable@ + run_sealed(ps) == st.stable@,
        (st.stable@ + run_sealed(ps)) + run_tail(ps) == st.stable@ + st.tail@,
        run_token(st.continuation_token, ps) == st.continuation_token,
{
    lemma_run_sealed_singleton(ps);
    assert(st.stable@ + run_sealed(ps) =~= st.stable@);
}

/// Sealing monotonicity: whatever pages one sync fetches, the old stable
/// list survives unchanged as a prefix of the new one.  Chained through
/// [`lemma_prefix_transitive`], every earlier stable list is a prefix of
/// every later one across any sequence of syncs.
pub proof fn lemma_sealing_monotonic(stable: Seq<Activity>, ps: Seq<ActivityPage>)
    ensures
        stable.is_prefix_of(stable + run_sealed(ps)),
        (stable + run_sealed(ps)).len() >= stable.len(),
        forall|i: int| 0 <= i < stable.len() ==> (stable + run_sealed(ps))[i] == stable[i],
{
    assert((stable + run_sealed(ps)).take(stable.len() as int) =~= stable);
}

/// Being a prefix is transitive.
pub proof fn lemma_prefix_transitive(a: Seq<Activity>, b: Seq<Activity>, c: Seq<Activity>)
    requires
        a.is_prefix_of(b),
        b.is_prefix_of(c),
    ensures
        a.is_prefix_of(c),
{
    assert(c.take(a.len() as int) =~= b.take(a.len() as int));
}

/// The stable list after a whole sequence of syncs, each fetching one
/// page run.
pub open spec fn syncs_stable(stable: Seq<Activity>, runs: Seq<Seq<ActivityPage>>) -> Seq<
    Activity,
>
    decreases runs.len(),
{
    if runs.len() == 0 {
        stable
    } else {
        syncs_stable(stable + run_sealed(runs[0]), runs.drop_first())
    }
}

/// Sealing monotonicity over whole sequences of syncs: the stable list
/// at any point survives as a prefix of the stable list after any
/// further syncs — applied at an intermediate state, this pins the
/// non-decreasing, prefix-preserving evolution of `stable` across every
/// sequence of syncs.
pub proof fn lemma_sealing_monotonic_over_syncs(
    stable: Seq<Activity>,
    runs: Seq<Seq<ActivityPage>>,
)
    ensures
        stable.is_prefix_of(syncs_stable(stable, runs)),
    decreases runs.len(),
{
    if runs.len() == 0 {
    } else {
        let next = stable + run_sealed(runs[0]);
        lemma_sealing_monotonic(stable, runs[0]);
        lemma_sealing_monotonic_over_syncs(next, runs.drop_first());
        lemma_prefix_transitive(stable, next, syncs_stable(next, runs.drop_first()));
    }
}

/// Tail volatility: when the tail page gained entries and no new page
/// was sealed, the returned log grows by exactly those entries and
/// `stable` is unchanged.
pub proof fn lemma_tail_volatility(
    st: ActivitySyncState,
    ps: Seq<ActivityPage>,
    extra: Seq<Activity>,
)
    requires
        is_page_run(ps),
        ps.len() == 1,
        ps[0].activities@ == st.tail@ + extra,
    ensures
        st.stable@ + run_sealed(ps) == st.stable@,
        (st.stable@ + run_sealed(ps)) + run_tail(ps) == (st.stable@ + st.tail@) + extra,
{
    lemma_run_sealed_singleton(ps);
    assert(st.stable@ + run_sealed(ps) =~= st.stable@);
    assert(st.stable@ + (st.tail@ + extra) =~= (st.stable@ + st.tail@) + extra);
}

/// A one-page run seals nothing.
proof fn lemma_run_sealed_singleton(ps: Seq<ActivityPage>)
    requires
        ps.len() == 1,
    ensures
        run_sealed(ps) == Seq::<Activity>::empty(),
{
    assert(ps.drop_last() =~= Seq::<ActivityPage>::empty());
    assert(pages_activities(ps.drop_last()) =~= Seq::<Seq<Activity>>::empty());
}

/// Resume correctness: the remote log at one instant is a page run; a
/// sync resumed from a state whose stable list mirrors the first `k`
/// pages sees the pages from `k` on and returns exactly the full remote
/// log — the same log a from-scratch fetch (the case `k == 0` with an
/// empty stable list) returns at that instant.
pub proof fn lemma_resume_correctness(st: ActivitySyncState, remote: Seq<ActivityPage>, k: int)
    requires
        is_page_run(remote),
        0 <= k < remote.len(),
        st.stable@ == pages_activities(remote.take(k)).flatten(),
    ensures
        is_page_run(remote.skip(k)),
        (st.stable@ + run_sealed(remote.skip(k))) + run_tail(remote.skip(k))
            == pages_activities(remote).flatten(),
{
    let rest = remote.skip(k);
    assert(rest.last() == remote.last());
    assert forall|i: int| 0 <= i < rest.len() - 1 implies (#[trigger] rest[i]).next_page_token
        is Some by {
        assert(rest[i] == remote[k + i]);
    }

    let front = pages_activities(remote.take(k));
    let back = pages_activities(rest);
    assert(pages_activities(remote) =~= front + back);
    lemma_flatten_concat(front, back);

    let sealed = pages_activities(rest.drop_last());
    assert(back =~= sealed.push(rest.last().activities@));
    sealed.lemma_flatten_push(rest.last().activities@);

    assert((st.stable@ + run_sealed(rest)) + run_tail(rest) =~= front.flatten() + (
    sealed.flatten() + rest.last().activities@));
}

} // verus!
