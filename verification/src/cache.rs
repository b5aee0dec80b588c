//! The release cache: the last-fetched release list with its fetch
//! timestamp, and the freshness policy that decides when the remote source
//! must be consulted again. The cache itself never performs the fetch; it
//! hands out a decision, and a later commit stores what the fetch returned.

use vstd::prelude::*;
use crate::release::Release;

verus! {

/// The unit of persistence: a release list together with the
/// epoch-millisecond time at which it was fetched.
pub struct CacheSnapshot {
    /// The releases, in the order the source returned them.
    pub releases: Vec<Release>,
    /// When the list was fetched, in milliseconds since the epoch.
    pub last_fetch_time: i64,
}

/// The mathematical value of a [`CacheSnapshot`].
pub struct SnapshotView {
    pub releases: Seq<crate::release::ReleaseView>,
    pub last_fetch_time: i64,
}

impl DeepView for CacheSnapshot {
    type V = SnapshotView;

    open spec fn deep_view(&self) -> SnapshotView {
        SnapshotView {
            releases: self.releases.deep_view(),
            last_fetch_time: self.last_fetch_time,
        }
    }
}

/// What a freshness check decided: serve the cached list, or consult the
/// remote source.
pub enum FetchDecision {
    /// The cache is fresh; this is a copy of the cached list.
    UseCache(Vec<Release>),
    /// The cache is disabled, empty or stale; the source must be fetched.
    NeedFetch,
}

/// The in-memory release cache: the last-fetched list and its timestamp,
/// absent until the first successful fetch or a load from disk.
pub struct ReleaseCache {
    /// The cached releases; meaningful only together with `last_fetch_time`.
    pub releases: Vec<Release>,
    /// When the cached list was fetched, or `None` on a cold start.
    pub last_fetch_time: Option<i64>,
}

impl ReleaseCache {
    /// Whether the cache may be served at time `now` under the given TTL:
    /// caching enabled, a fetch recorded, its age below the TTL, and the
    /// cached list non-empty.
    pub open spec fn fresh_at(self, ttl: u64, now: i64) -> bool {
        &&& ttl > 0
        &&& self.last_fetch_time is Some
        &&& now - self.last_fetch_time->0 < ttl
        &&& self.releases@.len() > 0
    }

    /// What a freshness check at time `now` yields: the cached list's value
    /// when the cache is fresh, nothing when the source must be fetched.
    pub open spec fn decide_spec(self, ttl: u64, now: i64) -> Option<Seq<crate::release::ReleaseView>> {
        if self.fresh_at(ttl, now) {
            Option::Some(self.releases.deep_view())
        } else {
            Option::None
        }
    }

    /// An empty cache: no releases, no fetch recorded.
    pub fn new() -> (c: Self)
        ensures
            c.releases@.len() == 0,
            c.last_fetch_time is None,
    {
        ReleaseCache { releases: Vec::new(), last_fetch_time: Option::None }
    }

    /// A cache primed from a persisted snapshot, as after a warm start.
    pub fn from_snapshot(snapshot: CacheSnapshot) -> (c: Self)
        ensures
            c.releases == snapshot.releases,
            c.last_fetch_time == Option::Some(snapshot.last_fetch_time),
    {
        ReleaseCache {
            releases: snapshot.releases,
            last_fetch_time: Option::Some(snapshot.last_fetch_time),
        }
    }

    /// Decides at time `now` whether the cached list may be served: a copy of
    /// it exactly when the cache is fresh, else the order to fetch.
    pub fn decide(&self, ttl: u64, now: i64) -> (d: FetchDecision)
        ensures
            self.fresh_at(ttl, now) ==> (d matches FetchDecision::UseCache(rs) && rs.deep_view()
                == self.releases.deep_view()),
            !self.fresh_at(ttl, now) ==> d is NeedFetch,
    {
        if ttl > 0 {
            if let Option::Some(last) = self.last_fetch_time {
                if self.releases.len() > 0 {
                    if (now as i128) - (last as i128) < (ttl as i128) {
                        let rs = self.releases.clone();
                        proof {
                            assert(rs@ =~= self.releases@);
                            assert(rs.deep_view() =~= self.releases.deep_view());
                        }
                        return FetchDecision::UseCache(rs);
                    }
                }
            }
        }
        FetchDecision::NeedFetch
    }

    /// Replaces the snapshot wholesale with a freshly fetched list, recording
    /// `now` as the fetch time. The previous contents are discarded.
    pub fn commit(&mut self, releases: Vec<Release>, now: i64)
        ensures
            final(self).releases == releases,
            final(self).last_fetch_time == Option::Some(now),
    {
        self.releases = releases;
        self.last_fetch_time = Option::Some(now);
    }

    /// Resets the cache to its cold-start state. Idempotent.
    pub fn clear(&mut self)
        ensures
            final(self).releases@.len() == 0,
            final(self).last_fetch_time is None,
    {
        self.releases = Vec::new();
        self.last_fetch_time = Option::None;
    }

    /// A snapshot of the cache for persistence; when no fetch time is
    /// recorded, `now` stands in for it.
    pub fn snapshot_with_fallback(&self, now: i64) -> (s: CacheSnapshot)
        ensures
            s.releases@ == self.releases@,
            self.last_fetch_time matches Some(t) ==> s.last_fetch_time == t,
            self.last_fetch_time is None ==> s.last_fetch_time == now,
    {
        let rs = self.releases.clone();
        proof {
            assert(rs@ =~= self.releases@);
        }
        let t = match self.last_fetch_time {
            Option::Some(t) => t,
            Option::None => now,
        };
        CacheSnapshot { releases: rs, last_fetch_time: t }
    }

    /// Decides as [`Self::decide`] does, against the clock; the time used is
    /// returned beside the decision.
    pub fn decide_now(&self, ttl: u64) -> (r: (FetchDecision, i64))
        ensures
            self.fresh_at(ttl, r.1) ==> (r.0 matches FetchDecision::UseCache(rs) && rs.deep_view()
                == self.releases.deep_view()),
            !self.fresh_at(ttl, r.1) ==> r.0 is NeedFetch,
    {
        let now = current_millis();
        (self.decide(ttl, now), now)
    }

    /// Commits a freshly fetched list as [`Self::commit`] does, against the
    /// clock; the recorded fetch time is returned.
    pub fn commit_now(&mut self, releases: Vec<Release>) -> (t: i64)
        ensures
            final(self).releases == releases,
            final(self).last_fetch_time == Option::Some(t),
    {
        let now = current_millis();
        self.commit(releases, now);
        now
    }
}

/// Relies on chrono's Utc::now: the current time as milliseconds since the
/// epoch. Nothing is assumed of the value.
#[verifier::external_body]
fn current_millis() -> i64 {
    chrono::Utc::now().timestamp_millis()
}

/// With caching enabled, a call within the TTL window after a commit of a
/// non-empty list finds the cache fresh and is served exactly the committed
/// list, so the fetch collaborator is consulted only by the first call.
pub proof fn lemma_ttl_window_single_fetch(
    c: ReleaseCache,
    releases: Vec<Release>,
    t0: i64,
    ttl: u64,
    now: i64,
)
    requires
        c.releases == releases,
        c.last_fetch_time == Option::Some(t0),
        releases@.len() > 0,
        ttl > 0,
        now - t0 < ttl,
    ensures
        c.decide_spec(ttl, now) == Option::Some(releases.deep_view()),
{
}

/// With caching disabled (TTL zero), every call orders a fetch, whatever the
/// cache holds.
pub proof fn lemma_ttl_zero_always_fetches(c: ReleaseCache, now: i64)
    ensures
        c.decide_spec(0, now) is None,
{
}

/// After a clear, the next call behaves as a cold start: it orders a fetch
/// even within a previously valid TTL window.
pub proof fn lemma_clear_forces_fetch(c: ReleaseCache, ttl: u64, now: i64)
    requires
        c.last_fetch_time is None,
    ensures
        c.decide_spec(ttl, now) is None,
{
}

} // verus!
