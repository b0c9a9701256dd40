use vstd::prelude::*;

use crate::bin_calendar::{BinColor, BinColorView};

verus! {

/// Seconds after which a cached result is no longer served: twelve hours.
pub const STALE_AFTER_SECS: i64 = 43200;

/// A result computed at `computed_at` is stale at `now` once twelve whole
/// hours have passed; with nothing computed yet, every moment is stale.
pub open spec fn stale_at(computed_at: Option<i64>, now: i64) -> bool {
    match computed_at {
        None => true,
        Some(t) => now - t >= STALE_AFTER_SECS,
    }
}

/// What a request is answered with before any remote call.
#[derive(Debug)]
pub enum CacheLookup {
    /// The cached result is recent enough: serve it.
    Fresh(BinColor),
    /// The cached result is missing or stale: fetch a new one and hand it to
    /// `ScheduleCache::refresh`.
    Refresh,
}

/// The single cache slot: the last valid result and when it was stored.
#[derive(Debug)]
pub struct ScheduleCache {
    pub last_result: Option<BinColor>,
    pub last_computed_at: Option<i64>,
}

/// The slot in mathematical form.
pub ghost struct CacheView {
    pub result: Option<BinColorView>,
    pub computed_at: Option<i64>,
}

impl View for ScheduleCache {
    type V = CacheView;

    open spec fn view(&self) -> CacheView {
        CacheView {
            result: match self.last_result {
                Some(b) => Some(b@),
                None => None,
            },
            computed_at: self.last_computed_at,
        }
    }
}

pub open spec fn option_view(b: Option<BinColor>) -> Option<BinColorView> {
    match b {
        Some(b) => Some(b@),
        None => None,
    }
}

/// The slot after a fetch that returned `fetched` at `now`: a valid result
/// replaces the slot and its time; anything else leaves both as they were.
pub open spec fn after_refresh(c: CacheView, fetched: Option<BinColorView>, now: i64) -> CacheView {
    match fetched {
        Some(b) => if b.colors.len() > 0 {
            CacheView { result: Some(b), computed_at: Some(now) }
        } else {
            c
        },
        None => c,
    }
}

/// The slot after a request at `now`, where a fetch, if one is made, returns
/// `fetched`: only a stale slot fetches.
pub open spec fn after_request(c: CacheView, fetched: Option<BinColorView>, now: i64) -> CacheView {
    if stale_at(c.computed_at, now) {
        after_refresh(c, fetched, now)
    } else {
        c
    }
}

/// With a fetch that always succeeds, two requests less than twelve hours
/// apart fetch at most once between them.
pub proof fn lemma_one_fetch_per_window(c: CacheView, fetched: BinColorView, t1: i64, t2: i64)
    requires
        fetched.colors.len() > 0,
        t1 <= t2,
        t2 - t1 < STALE_AFTER_SECS,
    ensures
        !(stale_at(c.computed_at, t1) && stale_at(
            after_request(c, Some(fetched), t1).computed_at,
            t2,
        )),
{
}

/// A request twelve hours or more after the last successful fetch fetches again.
pub proof fn lemma_fetch_again_after_window(c: CacheView, fetched: BinColorView, t0: i64, t1: i64)
    requires
        fetched.colors.len() > 0,
        t1 - t0 >= STALE_AFTER_SECS,
    ensures
        stale_at(after_refresh(c, Some(fetched), t0).computed_at, t1),
{
}

/// A fetch that returns nothing, or an empty result, changes nothing: the
/// previous result stays served exactly as long as before, and its time is
/// not advanced.
pub proof fn lemma_failed_fetch_keeps_slot(c: CacheView, fetched: Option<BinColorView>, now: i64, later: i64)
    requires
        fetched matches Some(b) ==> b.colors.len() == 0,
    ensures
        after_refresh(c, fetched, now) == c,
        after_refresh(c, fetched, now).result == c.result,
        after_refresh(c, fetched, now).computed_at == c.computed_at,
        stale_at(after_refresh(c, fetched, now).computed_at, later) == stale_at(c.computed_at, later),
{
}

impl ScheduleCache {
    /// A result is held exactly when a time is, and only valid results are held.
    pub open spec fn wf(&self) -> bool {
        &&& (self.last_result is Some <==> self.last_computed_at is Some)
        &&& self.last_result matches Some(b) ==> b.spec_is_valid()
    }

    /// An empty cache: the first request always refreshes.
    pub fn new() -> (r: ScheduleCache)
        ensures
            r.wf(),
            r@.result is None,
            r@.computed_at is None,
    {
        ScheduleCache { last_result: None, last_computed_at: None }
    }

    pub fn is_stale(&self, now: i64) -> (r: bool)
        ensures
            r == stale_at(self@.computed_at, now),
    {
        match self.last_computed_at {
            None => true,
            Some(t) => (now as i128) - (t as i128) >= STALE_AFTER_SECS as i128,
        }
    }

    /// Serve the cached result while it is fresh; ask for a refresh otherwise.
    pub fn lookup(&self, now: i64) -> (r: CacheLookup)
        requires
            self.wf(),
        ensures
            r is Refresh <==> stale_at(self@.computed_at, now),
            r matches CacheLookup::Fresh(b) ==> self@.result == Some(b@),
    {
        if self.is_stale(now) {
            return CacheLookup::Refresh;
        }
        match &self.last_result {
            Some(b) => CacheLookup::Fresh(b.duplicate()),
            None => CacheLookup::Refresh,
        }
    }

    /// Take the outcome of a fetch made at `now`. A valid result is stored
    /// with `now` as its time and returned; an absent or empty one leaves the
    /// slot as it was, and the request is answered with nothing.
    pub fn refresh(&mut self, fetched: Option<BinColor>, now: i64) -> (r: Option<BinColor>)
        requires
            old(self).wf(),
        ensures
            final(self).wf(),
            final(self)@ == after_refresh(old(self)@, option_view(fetched), now),
            r is Some <==> (fetched matches Some(b) && b.spec_is_valid()),
            r matches Some(b) ==> final(self)@.result == Some(b@),
    {
        match fetched {
            Some(b) => {
                if b.is_valid() {
                    let answer = b.duplicate();
                    self.last_result = Some(b);
                    self.last_computed_at = Some(now);
                    Some(answer)
                } else {
                    None
                }
            },
            None => None,
        }
    }
}

} // verus!
