//! Per-agent resource quotas: a rolling one-hour token window and an
//! in-flight tool-concurrency counter.
//!
//! Token admission prunes consumption older than the window, then succeeds
//! exactly when the remaining window sum plus the request stays within the
//! declared hourly limit. Slot acquisition succeeds exactly when the
//! in-flight count is below the declared concurrency limit; a caller must
//! pair every successful acquisition with a release on every exit path.

use vstd::prelude::*;

verus! {

/// The outcome of a refused quota request; retryable once the window rolls
/// or a slot frees.
#[derive(Clone, Copy, PartialEq, Eq, Structural, Debug)]
pub struct QuotaExceeded;

/// The number of seconds of the rolling token window.
pub open spec fn window_seconds() -> u64 {
    3600
}

/// The total of the amounts recorded in a window.
pub open spec fn sum_amounts(w: Seq<(u64, u64)>) -> int
    decreases w.len(),
{
    if w.len() == 0 {
        0
    } else {
        sum_amounts(w.drop_last()) + w.last().1
    }
}

/// A recorded consumption still counts at `now` when it is younger than the
/// window.
pub open spec fn still_counts(entry: (u64, u64), now: u64) -> bool {
    entry.0 + window_seconds() > now
}

/// The window with everything older than the rolling hour pruned away.
pub open spec fn kept(w: Seq<(u64, u64)>, now: u64) -> Seq<(u64, u64)>
    decreases w.len(),
{
    if w.len() == 0 {
        Seq::empty()
    } else if still_counts(w.last(), now) {
        kept(w.drop_last(), now).push(w.last())
    } else {
        kept(w.drop_last(), now)
    }
}

pub proof fn lemma_kept_sum_le(w: Seq<(u64, u64)>, now: u64)
    ensures
        0 <= sum_amounts(kept(w, now)) <= sum_amounts(w),
    decreases w.len(),
{
    if w.len() == 0 {
    } else {
        lemma_kept_sum_le(w.drop_last(), now);
        if still_counts(w.last(), now) {
            assert(kept(w, now).drop_last() =~= kept(w.drop_last(), now));
            assert(kept(w, now).last() == w.last());
        }
    }
}

/// One agent's quota state: its declared limits, its rolling token window,
/// and its in-flight tool count. Not shared across agents, even related ones.
#[derive(Debug)]
#[verifier::ext_equal]
pub struct QuotaMeter {
    pub max_llm_tokens_per_hour: u64,
    pub max_concurrent_tools: u32,
    pub window: Vec<(u64, u64)>,
    pub in_flight: u32,
}

/// The meter's invariant: the recorded window never exceeds the hourly
/// limit.
pub open spec fn meter_wf(m: QuotaMeter) -> bool {
    sum_amounts(m.window@) <= m.max_llm_tokens_per_hour
}

/// One slot acquisition against a counter: the new count and whether the
/// acquisition was admitted.
pub open spec fn spec_acquire(c: u32, max: u32) -> (u32, bool) {
    if c < max {
        ((c + 1) as u32, true)
    } else {
        (c, false)
    }
}

/// The counter and the number of admissions after `k` acquisition attempts
/// in a row.
pub open spec fn run_acquires(c: u32, max: u32, k: nat) -> (u32, nat)
    decreases k,
{
    if k == 0 {
        (c, 0)
    } else {
        let prior = run_acquires(c, max, (k - 1) as nat);
        let step = spec_acquire(prior.0, max);
        (step.0, prior.1 + if step.1 {
            1nat
        } else {
            0nat
        })
    }
}

proof fn lemma_run_acquires_from(c: u32, max: u32, k: nat)
    requires
        c <= max,
    ensures
        run_acquires(c, max, k).0 == if c + k <= max {
            c + k
        } else {
            max as int
        },
        run_acquires(c, max, k).1 == if c + k <= max {
            k as int
        } else {
            max - c
        },
    decreases k,
{
    if k > 0 {
        lemma_run_acquires_from(c, max, (k - 1) as nat);
    }
}

/// Law: against a concurrency limit of `max`, `k` acquisition attempts from
/// an idle meter admit exactly `max` of them when `k` exceeds the limit, and
/// all `k` otherwise; the rest are denied until a release occurs.
pub proof fn lemma_tool_slots_admit_exactly_max(max: u32, k: nat)
    ensures
        run_acquires(0, max, k).1 == if k <= max {
            k as int
        } else {
            max as int
        },
        k >= max ==> run_acquires(0, max, k).0 == max,
{
    lemma_run_acquires_from(0, max, k);
}

impl QuotaMeter {
    /// A fresh meter for an agent with the given declared limits.
    pub fn new(max_llm_tokens_per_hour: u64, max_concurrent_tools: u32) -> (r: QuotaMeter)
        ensures
            r.max_llm_tokens_per_hour == max_llm_tokens_per_hour,
            r.max_concurrent_tools == max_concurrent_tools,
            r.window@ == Seq::<(u64, u64)>::empty(),
            r.in_flight == 0,
            meter_wf(r),
    {
        let r = QuotaMeter {
            max_llm_tokens_per_hour,
            max_concurrent_tools,
            window: Vec::new(),
            in_flight: 0,
        };
        r
    }

    fn prune(&mut self, now: u64)
        ensures
            final(self).window@ == kept(old(self).window@, now),
            final(self).max_llm_tokens_per_hour == old(self).max_llm_tokens_per_hour,
            final(self).max_concurrent_tools == old(self).max_concurrent_tools,
            final(self).in_flight == old(self).in_flight,
    {
        let mut fresh: Vec<(u64, u64)> = Vec::new();
        let mut i: usize = 0;
        let n = self.window.len();
        while i < n
            invariant
                i <= n,
                n == self.window@.len(),
                self.window@ == old(self).window@,
                fresh@ == kept(self.window@.take(i as int), now),
            decreases n - i,
        {
            let entry = self.window[i];
            proof {
                assert(self.window@.take(i as int + 1).drop_last() =~= self.window@.take(i as int));
                assert(self.window@.take(i as int + 1).last() == self.window@[i as int]);
            }
            if entry.0 >= now || now - entry.0 < 3600 {
                fresh.push(entry);
            }
            i = i + 1;
        }
        proof {
            assert(self.window@.take(n as int) =~= self.window@);
        }
        self.window = fresh;
    }

    /// Prunes consumption older than the rolling hour, then admits `n`
    /// tokens exactly when the remaining window total plus `n` stays within
    /// the hourly limit; an admitted request is recorded at `now`.
    pub fn try_consume_tokens(&mut self, n: u64, now: u64) -> (r: Result<(), QuotaExceeded>)
        requires
            meter_wf(*old(self)),
        ensures
            r is Ok <==> sum_amounts(kept(old(self).window@, now)) + n
                <= old(self).max_llm_tokens_per_hour,
            final(self).window@ == if r is Ok {
                kept(old(self).window@, now).push((now, n))
            } else {
                kept(old(self).window@, now)
            },
            meter_wf(*final(self)),
            final(self).max_llm_tokens_per_hour == old(self).max_llm_tokens_per_hour,
            final(self).max_concurrent_tools == old(self).max_concurrent_tools,
            final(self).in_flight == old(self).in_flight,
            r is Err ==> r == Err::<(), QuotaExceeded>(QuotaExceeded),
    {
        self.prune(now);
        let mut used: u64 = 0;
        let mut i: usize = 0;
        let m = self.window.len();
        proof {
            lemma_kept_sum_le(old(self).window@, now);
            lemma_sum_nonneg(self.window@);
        }
        while i < m
            invariant
                i <= m,
                m == self.window@.len(),
                self.window@ == kept(old(self).window@, now),
                used == sum_amounts(self.window@.take(i as int)),
                used <= sum_amounts(self.window@),
                sum_amounts(self.window@) <= u64::MAX,
            decreases m - i,
        {
            proof {
                assert(self.window@.take(i as int + 1).drop_last() =~= self.window@.take(i as int));
                assert(self.window@.take(i as int + 1).last() == self.window@[i as int]);
                lemma_sum_prefix_le(self.window@, i as int + 1);
            }
            used = used + self.window[i].1;
            i = i + 1;
        }
        proof {
            assert(self.window@.take(m as int) =~= self.window@);
        }
        if n > self.max_llm_tokens_per_hour || used > self.max_llm_tokens_per_hour - n {
            return Err(QuotaExceeded);
        }
        self.window.push((now, n));
        proof {
            assert(self.window@.drop_last() =~= kept(old(self).window@, now));
            assert(self.window@.last() == (now, n));
        }
        Ok(())
    }

    /// Admits a tool slot exactly when the in-flight count is below the
    /// declared concurrency limit; an admitted slot must be released on
    /// every exit path of the call it covers.
    pub fn try_acquire_tool_slot(&mut self) -> (r: Result<(), QuotaExceeded>)
        ensures
            final(self).in_flight == spec_acquire(old(self).in_flight, old(self).max_concurrent_tools).0,
            r is Ok <==> spec_acquire(old(self).in_flight, old(self).max_concurrent_tools).1,
            final(self).max_llm_tokens_per_hour == old(self).max_llm_tokens_per_hour,
            final(self).max_concurrent_tools == old(self).max_concurrent_tools,
            final(self).window == old(self).window,
            r is Err ==> r == Err::<(), QuotaExceeded>(QuotaExceeded),
    {
        if self.in_flight < self.max_concurrent_tools {
            self.in_flight = self.in_flight + 1;
            Ok(())
        } else {
            Err(QuotaExceeded)
        }
    }

    /// Returns a slot; the counter never goes below zero, so a stray release
    /// on an idle meter is a no-op.
    pub fn release_tool_slot(&mut self)
        ensures
            final(self).in_flight == if old(self).in_flight > 0 {
                old(self).in_flight - 1
            } else {
                0int
            },
            final(self).max_llm_tokens_per_hour == old(self).max_llm_tokens_per_hour,
            final(self).max_concurrent_tools == old(self).max_concurrent_tools,
            final(self).window == old(self).window,
    {
        if self.in_flight > 0 {
            self.in_flight = self.in_flight - 1;
        }
    }

    /// Drops every held slot at once, as a kill does for its agent.
    pub fn release_all_slots(&mut self)
        ensures
            final(self).in_flight == 0,
            final(self).max_llm_tokens_per_hour == old(self).max_llm_tokens_per_hour,
            final(self).max_concurrent_tools == old(self).max_concurrent_tools,
            final(self).window == old(self).window,
    {
        self.in_flight = 0;
    }
}

pub proof fn lemma_sum_nonneg(w: Seq<(u64, u64)>)
    ensures
        sum_amounts(w) >= 0,
    decreases w.len(),
{
    if w.len() > 0 {
        lemma_sum_nonneg(w.drop_last());
    }
}

pub proof fn lemma_sum_prefix_le(w: Seq<(u64, u64)>, i: int)
    requires
        0 <= i <= w.len(),
    ensures
        sum_amounts(w.take(i)) <= sum_amounts(w),
    decreases w.len() - i,
{
    if i == w.len() {
        assert(w.take(i) =~= w);
    } else {
        lemma_sum_prefix_le(w, i + 1);
        assert(w.take(i + 1).drop_last() =~= w.take(i));
        assert(w.take(i + 1).last() == w[i]);
        assert(sum_amounts(w.take(i)) <= sum_amounts(w.take(i + 1)));
    }
}

} // verus!
