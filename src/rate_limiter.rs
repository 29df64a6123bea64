use vstd::prelude::*;

verus! {

/// How long, in milliseconds, a caller that was refused admission waits
/// before it asks again.
pub const POLL_INTERVAL_MS: u64 = 100;

/// A timestamp `t` still falls in the trailing window of length `window` ending at `now`.
pub open spec fn recent(now: u64, window: u64) -> spec_fn(u64) -> bool {
    |t: u64| now - t < window
}

/// Admits at most `max_requests` calls in any trailing window of `window`
/// milliseconds, keeping the times of recent admissions in order.
pub struct RateLimiter {
    pub max_requests: usize,
    pub window: u64,
    pub requests: Vec<u64>,
}

impl RateLimiter {
    /// No more admissions are logged than the limit allows.
    pub open spec fn wf(self) -> bool {
        self.requests@.len() <= self.max_requests
    }

    /// The logged admissions that still count at `now`.
    pub open spec fn retained(self, now: u64) -> Seq<u64> {
        self.requests@.filter(recent(now, self.window))
    }

    /// Whether a call at `now` is admitted.
    pub open spec fn admits(self, now: u64) -> bool {
        self.retained(now).len() < self.max_requests
    }

    /// A limiter with an empty log.
    pub fn new(max_requests: usize, window: u64) -> (rl: RateLimiter)
        ensures
            rl.wf(),
            rl.max_requests == max_requests,
            rl.window == window,
            rl.requests@ == Seq::<u64>::empty(),
    {
        RateLimiter { max_requests, window, requests: Vec::new() }
    }

    /// Drops the logged admissions that fell out of the window ending at `now`.
    fn drop_expired(&mut self, now: u64)
        ensures
            final(self).max_requests == old(self).max_requests,
            final(self).window == old(self).window,
            final(self).requests@ == old(self).retained(now),
    {
        let mut kept: Vec<u64> = Vec::new();
        let mut i: usize = 0;
        while i < self.requests.len()
            invariant
                0 <= i <= self.requests@.len(),
                kept@ == self.requests@.take(i as int).filter(recent(now, self.window)),
            decreases self.requests@.len() - i,
        {
            let t = self.requests[i];
            proof {
                assert(self.requests@.take(i + 1).drop_last() == self.requests@.take(i as int));
                reveal(Seq::filter);
            }
            if now < t || now - t < self.window {
                kept.push(t);
            }
            i = i + 1;
        }
        proof {
            assert(self.requests@.take(self.requests@.len() as int) == self.requests@);
        }
        self.requests = kept;
    }

    /// Decides admission at time `now`: forgets admissions older than the
    /// window, then admits and logs `now` if fewer than `max_requests`
    /// remain. After the decision the log never holds more than the limit.
    pub fn try_admit(&mut self, now: u64) -> (admitted: bool)
        requires
            old(self).wf(),
        ensures
            final(self).wf(),
            admitted == old(self).admits(now),
            final(self).max_requests == old(self).max_requests,
            final(self).window == old(self).window,
            admitted ==> final(self).requests@ == old(self).retained(now).push(now),
            !admitted ==> final(self).requests@ == old(self).retained(now),
    {
        proof {
            old(self).requests@.lemma_filter_len(recent(now, old(self).window));
        }
        self.drop_expired(now);
        if self.requests.len() < self.max_requests {
            self.requests.push(now);
            true
        } else {
            false
        }
    }

    /// Runs `func` if a call at `now` is admitted, and returns its result;
    /// returns `None` without running it otherwise.
    pub fn call<T, E, F: FnOnce() -> Result<T, E>>(&mut self, now: u64, func: F) -> (r: Option<
        Result<T, E>,
    >)
        requires
            old(self).wf(),
            func.requires(()),
        ensures
            final(self).wf(),
            final(self).max_requests == old(self).max_requests,
            final(self).window == old(self).window,
            r is Some == old(self).admits(now),
            r is Some ==> func.ensures((), r->Some_0) && final(self).requests@ == old(
                self,
            ).retained(now).push(now),
            r is None ==> final(self).requests@ == old(self).retained(now),
    {
        if self.try_admit(now) {
            Some(func())
        } else {
            None
        }
    }
}

/// A time `t` falls in the interval of length `window` that starts at `start`.
pub open spec fn within(start: u64, window: u64) -> spec_fn(u64) -> bool {
    |t: u64| start <= t && t - start < window
}

/// Calls to `try_admit` at each of `times`, in order, on a fresh limiter:
/// the log they leave behind, and the times that were admitted.
pub open spec fn replay(max_requests: usize, window: u64, times: Seq<u64>) -> (Seq<u64>, Seq<u64>)
    decreases times.len(),
{
    if times.len() == 0 {
        (Seq::empty(), Seq::empty())
    } else {
        let (log, admitted) = replay(max_requests, window, times.drop_last());
        let now = times.last();
        let kept = log.filter(recent(now, window));
        if kept.len() < max_requests {
            (kept.push(now), admitted.push(now))
        } else {
            (kept, admitted)
        }
    }
}

proof fn lemma_filter_push(s: Seq<u64>, a: u64, p: spec_fn(u64) -> bool)
    ensures
        s.push(a).filter(p) == (if p(a) {
            s.filter(p).push(a)
        } else {
            s.filter(p)
        }),
{
    reveal(Seq::filter);
    assert(s.push(a).drop_last() == s);
}

proof fn lemma_filter_none(s: Seq<u64>, p: spec_fn(u64) -> bool)
    requires
        forall|i: int| 0 <= i < s.len() ==> !p(#[trigger] s[i]),
    ensures
        s.filter(p).len() == 0,
    decreases s.len(),
{
    if s.len() > 0 {
        let r = s.drop_last();
        assert(r.push(s.last()) == s);
        lemma_filter_push(r, s.last(), p);
        lemma_filter_none(r, p);
    }
}

proof fn lemma_filter_len_implies(s: Seq<u64>, p: spec_fn(u64) -> bool, q: spec_fn(u64) -> bool)
    requires
        forall|i: int| 0 <= i < s.len() && p(#[trigger] s[i]) ==> q(s[i]),
    ensures
        s.filter(p).len() <= s.filter(q).len(),
    decreases s.len(),
{
    if s.len() > 0 {
        let r = s.drop_last();
        assert(r.push(s.last()) == s);
        lemma_filter_push(r, s.last(), p);
        lemma_filter_push(r, s.last(), q);
        assert forall|i: int| 0 <= i < r.len() && p(#[trigger] r[i]) implies q(r[i]) by {
            assert(r[i] == s[i]);
        }
        lemma_filter_len_implies(r, p, q);
    }
}

proof fn lemma_filter_filter(s: Seq<u64>, p: spec_fn(u64) -> bool, q: spec_fn(u64) -> bool)
    requires
        forall|i: int| 0 <= i < s.len() && q(#[trigger] s[i]) ==> p(s[i]),
    ensures
        s.filter(p).filter(q) == s.filter(q),
    decreases s.len(),
{
    if s.len() > 0 {
        let r = s.drop_last();
        let a = s.last();
        assert(r.push(a) == s);
        lemma_filter_push(r, a, p);
        lemma_filter_push(r, a, q);
        lemma_filter_push(r.filter(p), a, q);
        assert forall|i: int| 0 <= i < r.len() && q(#[trigger] r[i]) implies p(r[i]) by {
            assert(r[i] == s[i]);
        }
        lemma_filter_filter(r, p, q);
    }
}

/// What a run of calls in clock order keeps true: the log holds exactly
/// the admitted times still in the window ending at the latest call, no
/// admitted time is later than that call, and no interval of length
/// `window` holds more than `max_requests` admitted times.
proof fn lemma_replay_invariant(max_requests: usize, window: u64, times: Seq<u64>)
    requires
        window > 0,
        times.len() > 0,
        forall|i: int, j: int| 0 <= i <= j < times.len() ==> times[i] <= times[j],
    ensures
        replay(max_requests, window, times).0 == replay(max_requests, window, times).1.filter(
            recent(times.last(), window),
        ),
        forall|i: int|
            0 <= i < replay(max_requests, window, times).1.len() ==> #[trigger] replay(
                max_requests,
                window,
                times,
            ).1[i] <= times.last(),
        forall|start: u64|
            #[trigger] replay(max_requests, window, times).1.filter(within(start, window)).len()
                <= max_requests,
    decreases times.len(),
{
    let prev = times.drop_last();
    let now = times.last();
    let (log0, adm0) = replay(max_requests, window, prev);
    let kept = log0.filter(recent(now, window));
    if prev.len() == 0 {
        reveal(Seq::filter);
        lemma_filter_push(Seq::<u64>::empty(), now, recent(now, window));
        assert forall|start: u64|
            #[trigger] replay(max_requests, window, times).1.filter(within(start, window)).len()
                <= max_requests by {
            lemma_filter_push(Seq::<u64>::empty(), now, within(start, window));
        }
    } else {
        lemma_replay_invariant(max_requests, window, prev);
        let last = prev.last();
        assert(last <= now);
        lemma_filter_filter(adm0, recent(last, window), recent(now, window));
        assert(kept == adm0.filter(recent(now, window)));
        if kept.len() < max_requests {
            lemma_filter_push(adm0, now, recent(now, window));
            assert forall|start: u64|
                #[trigger] replay(max_requests, window, times).1.filter(within(start, window)).len()
                    <= max_requests by {
                lemma_filter_push(adm0, now, within(start, window));
                if within(start, window)(now) {
                    lemma_filter_len_implies(adm0, within(start, window), recent(now, window));
                }
            }
        }
    }
}

/// The sliding-window bound: whatever the times, in clock order, at which
/// callers ask a fresh limiter for admission, no interval of length
/// `window` holds more than `max_requests` of the admitted times.
pub proof fn lemma_sliding_window_bound(
    max_requests: usize,
    window: u64,
    times: Seq<u64>,
    start: u64,
)
    requires
        forall|i: int, j: int| 0 <= i <= j < times.len() ==> times[i] <= times[j],
    ensures
        replay(max_requests, window, times).1.filter(within(start, window)).len() <= max_requests,
{
    if window == 0 {
        lemma_filter_none(replay(max_requests, window, times).1, within(start, window));
    } else if times.len() == 0 {
        reveal(Seq::filter);
    } else {
        lemma_replay_invariant(max_requests, window, times);
    }
}

} // verus!
