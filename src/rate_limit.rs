//! Per-action sliding-window rate limiting over 60 seconds.
use vstd::prelude::*;
use vstd::string::StringExecFns;
use crate::model::{override_lookup, ActionRequest, PolicyConfig};
use crate::text::{str_eq, string_from_chars, chars_of};

verus! {

/// The length of the sliding window, in seconds.
pub const WINDOW_SECS: u64 = 60;

/// The first second still inside the window that ends at `now`.
pub open spec fn window_start(now: u64) -> u64 {
    if now >= 60 {
        (now - 60) as u64
    } else {
        0
    }
}

/// The timestamps of `b` at or after `start`, in order.
pub open spec fn recent(b: Seq<u64>, start: u64) -> Seq<u64>
    decreases b.len(),
{
    if b.len() == 0 {
        b
    } else {
        let r = recent(b.drop_last(), start);
        if b.last() >= start {
            r.push(b.last())
        } else {
            r
        }
    }
}

/// One request at `now` against bucket `b` with limit `limit` (not 0):
/// whether it is admitted, and the bucket after it.
pub open spec fn rate_step(b: Seq<u64>, limit: u32, now: u64) -> (bool, Seq<u64>) {
    let kept = recent(b, window_start(now));
    if kept.len() >= limit {
        (false, kept)
    } else {
        (true, kept.push(now))
    }
}

/// The per-minute limit of `action`: its override, else the default.
pub open spec fn limit_for(policy: PolicyConfig, action: Seq<char>) -> u32 {
    match override_lookup(policy.constraints.rate_limit_per_minute_overrides@, action) {
        Some(l) => l,
        None => policy.constraints.rate_limit_per_minute_default,
    }
}

/// Requests that no bucket counts: natural-language ones (their parsed
/// request is counted instead) and actions whose limit is 0.
pub open spec fn rate_exempt(policy: PolicyConfig, action: Seq<char>) -> bool {
    action == "natural_language"@ || limit_for(policy, action) == 0
}

pub open spec fn rate_limit_message(action: Seq<char>) -> Seq<char> {
    "rate limit exceeded for action '"@ + action + "'"@
}

/// The per-minute limit that applies to `action`.
pub fn rate_limit_for_action(policy: &PolicyConfig, action: &str) -> (r: u32)
    ensures
        r == limit_for(*policy, action@),
{
    let ovs = &policy.constraints.rate_limit_per_minute_overrides;
    let mut i: usize = ovs.len();
    assert(ovs@.subrange(0, i as int) =~= ovs@);
    while i > 0
        invariant
            i <= ovs@.len(),
            ovs@ == policy.constraints.rate_limit_per_minute_overrides@,
            override_lookup(ovs@.subrange(0, i as int), action@) == override_lookup(ovs@, action@),
        decreases i,
    {
        assert(ovs@.subrange(0, i as int).drop_last() =~= ovs@.subrange(0, i - 1));
        if str_eq(ovs[i - 1].0.as_str(), action) {
            let ghost sub = ovs@.subrange(0, i as int);
            assert(sub.last() == ovs@[i - 1]);
            assert(sub.last().0@ == action@);
            assert(override_lookup(sub, action@) == Some(sub.last().1));
            return ovs[i - 1].1;
        }
        i = i - 1;
    }
    policy.constraints.rate_limit_per_minute_default
}

/// The request timestamps of each action, one bucket per action name.
pub struct RateLimiter {
    buckets: Vec<(String, Vec<u64>)>,
}

/// Whether each name has at most one bucket.
pub open spec fn names_unique(entries: Seq<(String, Vec<u64>)>) -> bool {
    forall|i: int, j: int|
        0 <= i < entries.len() && 0 <= j < entries.len() && #[trigger] entries[i].0@
            == #[trigger] entries[j].0@ ==> i == j
}

/// The bucket of `name`: its timestamps, or none when it has no bucket.
pub open spec fn bucket_of(entries: Seq<(String, Vec<u64>)>, name: Seq<char>) -> Seq<u64> {
    if exists|i: int| 0 <= i < entries.len() && entries[i].0@ == name {
        entries[choose|i: int| 0 <= i < entries.len() && entries[i].0@ == name].1@
    } else {
        Seq::<u64>::empty()
    }
}

proof fn lemma_bucket_at(entries: Seq<(String, Vec<u64>)>, i: int)
    requires
        names_unique(entries),
        0 <= i < entries.len(),
    ensures
        bucket_of(entries, entries[i].0@) == entries[i].1@,
{
    let j = choose|j: int| 0 <= j < entries.len() && entries[j].0@ == entries[i].0@;
    assert(entries[j].0@ == entries[i].0@);
}

proof fn lemma_bucket_replace(entries: Seq<(String, Vec<u64>)>, i: int, e: (String, Vec<u64>))
    requires
        names_unique(entries),
        0 <= i < entries.len(),
        e.0@ == entries[i].0@,
    ensures
        names_unique(entries.update(i, e)),
        bucket_of(entries.update(i, e), e.0@) == e.1@,
        forall|k: Seq<char>|
            k != e.0@ ==> #[trigger] bucket_of(entries.update(i, e), k) == bucket_of(entries, k),
{
    let u = entries.update(i, e);
    assert(names_unique(u)) by {
        assert forall|a: int, b: int|
            0 <= a < u.len() && 0 <= b < u.len() && #[trigger] u[a].0@ == #[trigger] u[b].0@ implies a
            == b by {
            assert(entries[a].0@ == u[a].0@);
            assert(entries[b].0@ == u[b].0@);
        }
    }
    lemma_bucket_at(u, i);
    assert forall|k: Seq<char>| k != e.0@ implies #[trigger] bucket_of(u, k) == bucket_of(
        entries,
        k,
    ) by {
        if exists|j: int| 0 <= j < entries.len() && entries[j].0@ == k {
            let j = choose|j: int| 0 <= j < entries.len() && entries[j].0@ == k;
            assert(j != i);
            assert(u[j] == entries[j]);
            lemma_bucket_at(entries, j);
            lemma_bucket_at(u, j);
        } else {
            assert(!exists|j: int| 0 <= j < u.len() && u[j].0@ == k) by {
                if exists|j: int| 0 <= j < u.len() && u[j].0@ == k {
                    let j = choose|j: int| 0 <= j < u.len() && u[j].0@ == k;
                    assert(j != i);
                    assert(entries[j].0@ == k);
                }
            }
        }
    }
}

proof fn lemma_bucket_push(entries: Seq<(String, Vec<u64>)>, e: (String, Vec<u64>))
    requires
        names_unique(entries),
        forall|j: int| 0 <= j < entries.len() ==> entries[j].0@ != e.0@,
    ensures
        names_unique(entries.push(e)),
        bucket_of(entries.push(e), e.0@) == e.1@,
        forall|k: Seq<char>|
            k != e.0@ ==> #[trigger] bucket_of(entries.push(e), k) == bucket_of(entries, k),
{
    let u = entries.push(e);
    assert(names_unique(u)) by {
        assert forall|a: int, b: int|
            0 <= a < u.len() && 0 <= b < u.len() && #[trigger] u[a].0@ == #[trigger] u[b].0@ implies a
            == b by {
            if a < entries.len() {
                assert(u[a] == entries[a]);
            }
            if b < entries.len() {
                assert(u[b] == entries[b]);
            }
        }
    }
    lemma_bucket_at(u, entries.len() as int);
    assert forall|k: Seq<char>| k != e.0@ implies #[trigger] bucket_of(u, k) == bucket_of(
        entries,
        k,
    ) by {
        if exists|j: int| 0 <= j < entries.len() && entries[j].0@ == k {
            let j = choose|j: int| 0 <= j < entries.len() && entries[j].0@ == k;
            assert(u[j] == entries[j]);
            lemma_bucket_at(entries, j);
            lemma_bucket_at(u, j);
        } else {
            assert(!exists|j: int| 0 <= j < u.len() && u[j].0@ == k) by {
                if exists|j: int| 0 <= j < u.len() && u[j].0@ == k {
                    let j = choose|j: int| 0 <= j < u.len() && u[j].0@ == k;
                    assert(j < entries.len());
                    assert(u[j] == entries[j]);
                }
            }
        }
    }
}

impl RateLimiter {
    pub closed spec fn wf(&self) -> bool {
        names_unique(self.buckets@)
    }

    /// The timestamps counted for `action`.
    pub closed spec fn bucket(&self, action: Seq<char>) -> Seq<u64> {
        bucket_of(self.buckets@, action)
    }

    /// A limiter that has seen no request.
    pub fn new() -> (r: RateLimiter)
        ensures
            r.wf(),
            forall|a: Seq<char>| #[trigger] r.bucket(a) == Seq::<u64>::empty(),
    {
        RateLimiter { buckets: Vec::new() }
    }

    /// The timestamps counted for `action`.
    pub fn timestamps(&self, action: &str) -> (r: Vec<u64>)
        requires
            self.wf(),
        ensures
            r@ == self.bucket(action@),
    {
        let mut i: usize = 0;
        while i < self.buckets.len()
            invariant
                self.wf(),
                i <= self.buckets@.len(),
                forall|k: int| 0 <= k < i ==> self.buckets@[k].0@ != action@,
            decreases self.buckets@.len() - i,
        {
            if str_eq(self.buckets[i].0.as_str(), action) {
                proof {
                    lemma_bucket_at(self.buckets@, i as int);
                }
                return self.buckets[i].1.clone();
            }
            i = i + 1;
        }
        Vec::new()
    }

    fn position_of(&self, action: &str) -> (r: Option<usize>)
        ensures
            match r {
                Some(k) => k < self.buckets@.len() && self.buckets@[k as int].0@ == action@,
                None => forall|k: int|
                    0 <= k < self.buckets@.len() ==> self.buckets@[k].0@ != action@,
            },
    {
        let mut i: usize = 0;
        while i < self.buckets.len()
            invariant
                i <= self.buckets@.len(),
                forall|k: int| 0 <= k < i ==> self.buckets@[k].0@ != action@,
            decreases self.buckets@.len() - i,
        {
            if str_eq(self.buckets[i].0.as_str(), action) {
                return Some(i);
            }
            i = i + 1;
        }
        None
    }

    /// Records one request for `action` at `now`, against `limit` (not 0):
    /// timestamps before the window are dropped, then the request is admitted
    /// and recorded when fewer than `limit` remain.
    pub fn record_request(&mut self, action: &str, limit: u32, now: u64) -> (admitted: bool)
        requires
            old(self).wf(),
        ensures
            final(self).wf(),
            (admitted, final(self).bucket(action@)) == rate_step(
                old(self).bucket(action@),
                limit,
                now,
            ),
            forall|a: Seq<char>|
                a != action@ ==> #[trigger] final(self).bucket(a) == old(self).bucket(a),
    {
        let start = if now >= WINDOW_SECS {
            now - WINDOW_SECS
        } else {
            0
        };
        let pos = self.position_of(action);
        let found = pos.is_some();
        let idx: usize = match pos {
            Some(k) => k,
            None => 0,
        };
        let ghost entries = self.buckets@;
        let old_bucket: Vec<u64> = if found {
            proof {
                lemma_bucket_at(entries, idx as int);
            }
            self.buckets[idx].1.clone()
        } else {
            Vec::new()
        };
        assert(old_bucket@ == bucket_of(entries, action@));
        let mut kept: Vec<u64> = Vec::new();
        let mut i: usize = 0;
        while i < old_bucket.len()
            invariant
                i <= old_bucket@.len(),
                kept@ == recent(old_bucket@.subrange(0, i as int), start),
            decreases old_bucket@.len() - i,
        {
            assert(old_bucket@.subrange(0, i + 1).drop_last() =~= old_bucket@.subrange(
                0,
                i as int,
            ));
            if old_bucket[i] >= start {
                kept.push(old_bucket[i]);
            }
            i = i + 1;
        }
        assert(old_bucket@.subrange(0, old_bucket@.len() as int) =~= old_bucket@);
        let admitted = kept.len() < limit as usize;
        if admitted {
            kept.push(now);
        }
        let entry = (string_from_chars(&chars_of(action)), kept);
        if found {
            proof {
                lemma_bucket_replace(entries, idx as int, entry);
            }
            self.buckets[idx] = entry;
        } else {
            proof {
                lemma_bucket_push(entries, entry);
            }
            self.buckets.push(entry);
        }
        admitted
    }
}

pub open spec fn rate_verdict_message(r: Result<(), String>) -> Option<Seq<char>> {
    match r {
        Ok(()) => None,
        Err(e) => Some(e@),
    }
}

/// Applies the sliding-window rate limit to a request made at `now`.
pub fn enforce_rate_limit(
    limiter: &mut RateLimiter,
    policy: &PolicyConfig,
    request: &ActionRequest,
    now: u64,
) -> (r: Result<(), String>)
    requires
        old(limiter).wf(),
    ensures
        final(limiter).wf(),
        rate_exempt(*policy, request@.name) ==> r is Ok && forall|a: Seq<char>|
            #[trigger] final(limiter).bucket(a) == old(limiter).bucket(a),
        !rate_exempt(*policy, request@.name) ==> {
            let (admitted, after) = rate_step(
                old(limiter).bucket(request@.name),
                limit_for(*policy, request@.name),
                now,
            );
            &&& final(limiter).bucket(request@.name) == after
            &&& forall|a: Seq<char>|
                a != request@.name ==> #[trigger] final(limiter).bucket(a) == old(limiter).bucket(
                    a,
                )
            &&& admitted ==> r is Ok
            &&& !admitted ==> rate_verdict_message(r) == Some(rate_limit_message(request@.name))
        },
{
    let name = request.name.as_str();
    if str_eq(name, "natural_language") {
        return Ok(());
    }
    let limit = rate_limit_for_action(policy, name);
    if limit == 0 {
        return Ok(());
    }
    if limiter.record_request(name, limit, now) {
        Ok(())
    } else {
        let msg = String::from_str("rate limit exceeded for action '").concat(name).concat("'");
        Err(msg)
    }
}

/// Replays requests at the times `times` against an empty bucket: whether
/// each is admitted.
pub open spec fn replay(b: Seq<u64>, limit: u32, times: Seq<u64>) -> (Seq<bool>, Seq<u64>)
    decreases times.len(),
{
    if times.len() == 0 {
        (Seq::<bool>::empty(), b)
    } else {
        let (verdicts, before) = replay(b, limit, times.drop_last());
        let (ok, after) = rate_step(before, limit, times.last());
        (verdicts.push(ok), after)
    }
}

proof fn lemma_recent_all_kept(b: Seq<u64>, start: u64)
    requires
        forall|i: int| 0 <= i < b.len() ==> b[i] >= start,
    ensures
        recent(b, start) == b,
    decreases b.len(),
{
    if b.len() > 0 {
        lemma_recent_all_kept(b.drop_last(), start);
        assert(b.drop_last().push(b.last()) =~= b);
    }
}

proof fn lemma_recent_none_kept(b: Seq<u64>, start: u64)
    requires
        forall|i: int| 0 <= i < b.len() ==> b[i] < start,
    ensures
        recent(b, start).len() == 0,
    decreases b.len(),
{
    if b.len() > 0 {
        lemma_recent_none_kept(b.drop_last(), start);
    }
}

proof fn lemma_replay_within_window(limit: u32, times: Seq<u64>)
    requires
        times.len() <= limit,
        forall|i: int, j: int| 0 <= i <= j < times.len() ==> times[i] <= times[j],
        times.len() > 0 ==> times[0] >= window_start(times.last()),
    ensures
        replay(Seq::<u64>::empty(), limit, times).1 == times,
        forall|i: int|
            0 <= i < times.len() ==> #[trigger] replay(Seq::<u64>::empty(), limit, times).0[i],
        replay(Seq::<u64>::empty(), limit, times).0.len() == times.len(),
    decreases times.len(),
{
    if times.len() > 0 {
        let prev = times.drop_last();
        if prev.len() > 0 {
            assert(prev[0] == times[0]);
            assert(prev.last() <= times.last());
        }
        lemma_replay_within_window(limit, prev);
        let t = times.last();
        assert forall|i: int| 0 <= i < prev.len() implies prev[i] >= window_start(t) by {
            assert(times[0] <= times[i]);
        }
        lemma_recent_all_kept(prev, window_start(t));
        assert(prev.push(t) =~= times);
    }
}

/// Within one window, a limit of `limit` admits the first `limit` requests
/// of an action and denies the next one.
pub proof fn lemma_rate_limit_denies_past_limit(limit: u32, times: Seq<u64>)
    requires
        limit > 0,
        times.len() == limit + 1,
        forall|i: int, j: int| 0 <= i <= j < times.len() ==> times[i] <= times[j],
        times[0] >= window_start(times.last()),
    ensures
        forall|i: int|
            0 <= i < limit ==> #[trigger] replay(Seq::<u64>::empty(), limit, times).0[i],
        !replay(Seq::<u64>::empty(), limit, times).0[limit as int],
{
    let prev = times.drop_last();
    assert(prev[0] == times[0]);
    lemma_replay_within_window(limit, prev);
    let t = times.last();
    assert forall|i: int| 0 <= i < prev.len() implies prev[i] >= window_start(t) by {
        assert(times[0] <= times[i]);
    }
    lemma_recent_all_kept(prev, window_start(t));
    let r = replay(Seq::<u64>::empty(), limit, times);
    let rp = replay(Seq::<u64>::empty(), limit, prev);
    assert(r.0 == rp.0.push(false));
    assert forall|i: int| 0 <= i < limit implies #[trigger] r.0[i] by {
        assert(rp.0[i]);
    }
}

/// Once 60 seconds have passed since every request counted for an action,
/// a new request is admitted.
pub proof fn lemma_rate_limit_admits_after_window(b: Seq<u64>, limit: u32, now: u64)
    requires
        limit > 0,
        forall|i: int| 0 <= i < b.len() ==> b[i] + 60 < now,
    ensures
        rate_step(b, limit, now).0,
        rate_step(b, limit, now).1 == seq![now],
{
    assert forall|i: int| 0 <= i < b.len() implies b[i] < window_start(now) by {}
    lemma_recent_none_kept(b, window_start(now));
    assert(recent(b, window_start(now)) =~= Seq::<u64>::empty());
    assert(Seq::<u64>::empty().push(now) =~= seq![now]);
}

} // verus!
