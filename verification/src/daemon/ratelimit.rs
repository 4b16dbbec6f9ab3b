//! Per-connection request rate cap: a token bucket.
//!
//! Time is in nanoseconds on a monotonic clock the caller reads; tokens are
//! counted in billionths, so one request costs `TOKEN` and the refill is
//! exact integer arithmetic.

use vstd::prelude::*;

verus! {

/// Sustained requests per second.
///
/// Generous by design: a slider drag is a legitimate burst. The cap exists so
/// one misbehaving client cannot starve the others, not to pace normal use.
pub const RATE_PER_SEC: u64 = 200;

/// Requests allowed back to back from a full bucket.
pub const BURST: u64 = 400;

/// One token, in billionths.
pub const TOKEN: u64 = 1_000_000_000;

/// A full bucket, in billionths.
pub const BURST_UNITS: u64 = 400_000_000_000;

/// Nanoseconds after which an empty bucket is full again.
pub const FILL_NANOS: u64 = 2_000_000_000;

pub struct RateLimiter {
    tokens: u64,
    last: u64,
}

/// The bucket after `elapsed` nanoseconds of refill: 200 tokens a second,
/// that is 200 billionths of a token a nanosecond, never above a full bucket.
pub open spec fn refill(tokens: int, elapsed: int) -> int {
    if tokens + elapsed * RATE_PER_SEC >= BURST_UNITS {
        BURST_UNITS as int
    } else {
        tokens + elapsed * RATE_PER_SEC
    }
}

/// One admission decision: (tokens after, time after, allowed).
pub open spec fn allow_spec(tokens: int, last: int, now: int) -> (int, int, bool) {
    let elapsed = if now > last { now - last } else { 0 };
    let t = refill(tokens, elapsed);
    if t >= TOKEN {
        (t - TOKEN, now, true)
    } else {
        (t, now, false)
    }
}

impl RateLimiter {
    pub closed spec fn tokens(&self) -> int {
        self.tokens as int
    }

    pub closed spec fn last(&self) -> int {
        self.last as int
    }

    pub closed spec fn wf(&self) -> bool {
        self.tokens <= BURST_UNITS
    }

    /// A full bucket.
    pub fn new() -> (r: Self)
        ensures
            r.wf(),
            r.tokens() == BURST_UNITS,
            r.last() == 0,
    {
        RateLimiter { tokens: BURST_UNITS, last: 0 }
    }

    /// Whether a request arriving at `now` may proceed; it spends one token.
    pub fn allow_at(&mut self, now: u64) -> (r: bool)
        requires
            old(self).wf(),
        ensures
            final(self).wf(),
            (final(self).tokens(), final(self).last(), r) == allow_spec(
                old(self).tokens(),
                old(self).last(),
                now as int,
            ),
    {
        let elapsed: u64 = if now > self.last {
            now - self.last
        } else {
            0
        };
        self.last = now;
        let t: u64 = if elapsed >= FILL_NANOS {
            BURST_UNITS
        } else {
            let add: u64 = elapsed * RATE_PER_SEC;
            if self.tokens + add >= BURST_UNITS {
                BURST_UNITS
            } else {
                self.tokens + add
            }
        };
        if t >= TOKEN {
            self.tokens = t - TOKEN;
            true
        } else {
            self.tokens = t;
            false
        }
    }
}

impl Default for RateLimiter {
    fn default() -> (r: Self)
        ensures
            r.wf(),
            r.tokens() == BURST_UNITS,
            r.last() == 0,
    {
        Self::new()
    }
}

/// Admission decisions for requests arriving at `times`, in order, from a
/// bucket holding `tokens` last refilled at `last`: how many are allowed.
pub open spec fn allowed_count(tokens: int, last: int, times: Seq<int>) -> int
    decreases times.len(),
{
    if times.len() == 0 {
        0
    } else {
        let (t, l, ok) = allow_spec(tokens, last, times[0]);
        (if ok { 1int } else { 0int }) + allowed_count(t, l, times.drop_first())
    }
}

/// The sustained cap: over any run of requests from time `last` to time
/// `end`, the requests allowed cost no more than the bucket held plus what
/// `end - last` nanoseconds refill.
pub proof fn lemma_rate_is_capped(tokens: int, last: int, times: Seq<int>, end: int)
    requires
        0 <= tokens <= BURST_UNITS,
        last <= end,
        forall|i: int| 0 <= i < times.len() ==> last <= #[trigger] times[i] <= end,
        forall|i: int, j: int| 0 <= i < j < times.len() ==> #[trigger] times[i] <= #[trigger] times[j],
    ensures
        allowed_count(tokens, last, times) * TOKEN <= tokens + (end - last) * RATE_PER_SEC,
    decreases times.len(),
{
    if times.len() > 0 {
        let (t, l, ok) = allow_spec(tokens, last, times[0]);
        let rest = times.drop_first();
        assert forall|i: int| 0 <= i < rest.len() implies l <= #[trigger] rest[i] <= end by {
            assert(rest[i] == times[i + 1]);
            assert(times[0] <= times[i + 1]);
        }
        assert forall|i: int, j: int| 0 <= i < j < rest.len() implies #[trigger] rest[i]
            <= #[trigger] rest[j] by {
            assert(rest[i] == times[i + 1]);
            assert(rest[j] == times[j + 1]);
        }
        assert(0 <= t <= BURST_UNITS);
        lemma_rate_is_capped(t, l, rest, end);
        let e = times[0] - last;
        assert(e >= 0);
        let rf = refill(tokens, e);
        assert(rf <= tokens + e * RATE_PER_SEC);
        let rc = allowed_count(t, l, rest);
        assert(rc * TOKEN <= t + (end - l) * RATE_PER_SEC);
        assert(allowed_count(tokens, last, times) == (if ok { 1int } else { 0int }) + rc);
        if ok {
            assert(t == rf - TOKEN);
            assert((1 + rc) * TOKEN == TOKEN + rc * TOKEN);
        } else {
            assert(t == rf);
        }
        assert((end - l) * RATE_PER_SEC + e * RATE_PER_SEC == (end - last) * RATE_PER_SEC);
    }
}

/// `n` requests all arriving at instant `t`.
pub open spec fn at_once(t: int, n: nat) -> Seq<int> {
    Seq::new(n, |i: int| t)
}

proof fn lemma_same_instant(k: nat, t: int, n: nat)
    requires
        k <= BURST,
    ensures
        allowed_count(k * TOKEN, t, at_once(t, n)) == if n < k {
            n as int
        } else {
            k as int
        },
    decreases n,
{
    if n > 0 {
        let times = at_once(t, n);
        assert(times.drop_first() =~= at_once(t, (n - 1) as nat));
        assert(times[0] == t);
        if k > 0 {
            assert((k - 1) * TOKEN == k * TOKEN - TOKEN);
            lemma_same_instant((k - 1) as nat, t, (n - 1) as nat);
        } else {
            lemma_same_instant(0, t, (n - 1) as nat);
        }
    }
}

/// A burst is allowed and then refused: from a full bucket, of `n` requests
/// arriving together exactly the first `BURST` are allowed.
pub proof fn lemma_burst_then_refuse(last: int, t: int, n: nat)
    requires
        last <= t,
    ensures
        allowed_count(BURST_UNITS as int, last, at_once(t, n)) == if n < BURST {
            n as int
        } else {
            BURST as int
        },
{
    if n > 0 {
        let times = at_once(t, n);
        assert(times.drop_first() =~= at_once(t, (n - 1) as nat));
        assert(times[0] == t);
        assert(refill(BURST_UNITS as int, t - last) == BURST_UNITS);
        assert((BURST - 1) * TOKEN == BURST_UNITS - TOKEN);
        lemma_same_instant((BURST - 1) as nat, t, (n - 1) as nat);
    }
}

} // verus!
