//! Crash-loop detection for the filter-chain process.
//!
//! Exits are counted in a sliding window; reaching [`CRASH_LIMIT`] exits
//! inside [`CRASH_WINDOW_NANOS`] trips safe mode, and respawns back off 1 s,
//! 2 s, then 4 s.

use crate::control::error::CoreError;
use crate::proto::EqChainId;
use std::time::{Duration, Instant};
use vstd::prelude::*;
use vstd::string::*;

verus! {

/// Exits within the window that trigger safe mode.
pub const CRASH_LIMIT: usize = 3;

/// The window, thirty seconds, in nanoseconds.
pub const CRASH_WINDOW_NANOS: u64 = 30_000_000_000;

/// A point in time of the monotonic clock; opaque here.
#[verifier::external_type_specification]
#[verifier::external_body]
pub struct ExInstant(Instant);

/// Reads the monotonic clock.
///
/// Wraps `Instant::now`; nothing is claimed of the result, which depends on
/// when it is called.
#[verifier::external_body]
fn clock_now() -> Instant {
    Instant::now()
}

/// Time passed since `since` on the monotonic clock.
///
/// Wraps `Instant::elapsed`; nothing is claimed of the result, which depends
/// on when it is called.
#[verifier::external_body]
fn elapsed_since(since: &Instant) -> Duration {
    since.elapsed()
}

/// A duration in whole nanoseconds.
///
/// Wraps `Duration::as_nanos`; nothing is claimed of the result, since a
/// `Duration` is opaque here.
#[verifier::external_body]
fn whole_nanos(d: Duration) -> u128 {
    d.as_nanos()
}

/// A count of nanoseconds as 64 bits, held at the largest value past it
/// (about 584 years).
pub fn saturate_nanos(n: u128) -> (r: u64)
    ensures
        r == if n > u64::MAX { u64::MAX as int } else { n as int },
{
    if n > 0xffff_ffff_ffff_ffffu128 {
        0xffff_ffff_ffff_ffffu64
    } else {
        n as u64
    }
}

/// How long before `now` an exit at `t` happened, or zero for an exit that
/// the clock puts later, as `Instant::duration_since` saturates.
pub open spec fn age(now: u64, t: u64) -> int {
    if now >= t {
        now - t
    } else {
        0
    }
}

pub open spec fn in_window(now: u64, t: u64) -> bool {
    age(now, t) < CRASH_WINDOW_NANOS
}

/// The exits of `s` that lie inside the window ending at `now`, in order.
pub open spec fn recent(s: Seq<u64>, now: u64) -> Seq<u64>
    decreases s.len(),
{
    if s.len() == 0 {
        Seq::empty()
    } else {
        let r = recent(s.drop_last(), now);
        if in_window(now, s.last()) {
            r.push(s.last())
        } else {
            r
        }
    }
}

/// Delay before the next respawn after `n` exits, in seconds.
pub open spec fn backoff_spec(n: nat) -> u64 {
    if n <= 1 {
        1
    } else if n == 2 {
        2
    } else {
        4
    }
}

/// Sliding-window crash counter.
#[derive(Debug)]
pub struct CrashTracker {
    origin: Instant,
    exits: Vec<u64>,
}

impl CrashTracker {
    /// The exits still counted, as nanoseconds after the tracker's origin.
    pub closed spec fn exits_spec(&self) -> Seq<u64> {
        self.exits@
    }

    pub fn new() -> (t: CrashTracker)
        ensures
            t.exits_spec() == Seq::<u64>::empty(),
    {
        CrashTracker { origin: clock_now(), exits: Vec::new() }
    }

    /// Records an exit at `now` (nanoseconds after the origin), forgets those
    /// that fell out of the window, and tells whether the limit is reached.
    pub fn record_exit_at(&mut self, now: u64) -> (tripped: bool)
        ensures
            final(self).exits_spec() == recent(old(self).exits_spec().push(now), now),
            tripped == (final(self).exits_spec().len() >= CRASH_LIMIT),
    {
        let ghost s = self.exits@.push(now);
        self.exits.push(now);
        let mut kept: Vec<u64> = Vec::new();
        let n = self.exits.len();
        let mut i: usize = 0;
        while i < n
            invariant
                n == s.len(),
                self.exits@ == s,
                i <= n,
                kept@ == recent(s.take(i as int), now),
            decreases n - i,
        {
            let t = self.exits[i];
            assert(s.take(i as int + 1).drop_last() =~= s.take(i as int));
            let age_ns: u64 = if now >= t {
                now - t
            } else {
                0
            };
            if age_ns < CRASH_WINDOW_NANOS {
                kept.push(t);
            }
            i = i + 1;
        }
        assert(s.take(n as int) =~= s);
        self.exits = kept;
        self.exits.len() >= CRASH_LIMIT
    }

    /// Records an exit now; true once the crash-loop limit is reached.
    ///
    /// The time comes from the monotonic clock, so the contract holds for
    /// whatever instant the clock gave.
    pub fn record_exit(&mut self) -> (tripped: bool)
        ensures
            exists|now: u64|
                final(self).exits_spec() == #[trigger] recent(old(self).exits_spec().push(now), now),
            tripped == (final(self).exits_spec().len() >= CRASH_LIMIT),
    {
        let now = saturate_nanos(whole_nanos(elapsed_since(&self.origin)));
        self.record_exit_at(now)
    }

    /// Seconds to wait before the next respawn: 1, 2, then 4.
    pub fn backoff(&self) -> (secs: u64)
        ensures
            secs == backoff_spec(self.exits_spec().len()),
    {
        let n = self.exits.len();
        let shift: usize = if n <= 1 {
            0
        } else if n == 2 {
            1
        } else {
            2
        };
        assert(1u64 << 0u64 == 1u64 && 1u64 << 1u64 == 2u64 && 1u64 << 2u64 == 4u64) by (bit_vector);
        1u64 << (shift as u64)
    }
}

impl Default for CrashTracker {
    fn default() -> (t: CrashTracker)
        ensures
            t.exits_spec() == Seq::<u64>::empty(),
    {
        CrashTracker::new()
    }
}

proof fn lemma_recent_all(s: Seq<u64>, now: u64)
    requires
        forall|k: int| 0 <= k < s.len() ==> in_window(now, #[trigger] s[k]),
    ensures
        recent(s, now) == s,
    decreases s.len(),
{
    if s.len() > 0 {
        lemma_recent_all(s.drop_last(), now);
        assert(s.drop_last().push(s.last()) =~= s);
    }
}

/// Only exits inside the window are kept, and nothing is made up.
pub proof fn lemma_recent_in_window(s: Seq<u64>, now: u64)
    ensures
        recent(s, now).len() <= s.len(),
        forall|k: int|
            0 <= k < recent(s, now).len() ==> in_window(now, #[trigger] recent(s, now)[k])
                && s.contains(recent(s, now)[k]),
    decreases s.len(),
{
    if s.len() > 0 {
        lemma_recent_in_window(s.drop_last(), now);
        let r = recent(s.drop_last(), now);
        assert forall|k: int| 0 <= k < r.len() implies s.contains(#[trigger] r[k]) by {
            assert(s.drop_last().contains(r[k]));
            let j = choose|j: int| 0 <= j < s.drop_last().len() && s.drop_last()[j] == r[k];
            assert(s[j] == r[k]);
        }
        assert(s[s.len() - 1] == s.last());
    }
}

/// Exits that come faster than the window trip the tracker on the exit
/// that reaches the limit.
pub proof fn lemma_trips_at_limit(exits: Seq<u64>, now: u64)
    requires
        forall|k: int| 0 <= k < exits.len() ==> in_window(now, #[trigger] exits[k]),
        exits.len() + 1 >= CRASH_LIMIT,
    ensures
        recent(exits.push(now), now).len() >= CRASH_LIMIT,
{
    let s = exits.push(now);
    assert forall|k: int| 0 <= k < s.len() implies in_window(now, #[trigger] s[k]) by {
        if k < exits.len() {
            assert(s[k] == exits[k]);
        }
    }
    lemma_recent_all(s, now);
}

/// The backoff grows with each exit and never passes four seconds.
pub proof fn lemma_backoff_grows_then_caps(m: nat, n: nat)
    requires
        m <= n,
    ensures
        backoff_spec(m) <= backoff_spec(n),
        1 <= backoff_spec(n) <= 4,
        n >= 3 ==> backoff_spec(n) == 4,
{
}

/// What the supervision loop does after one look at the filter chain.
#[derive(Debug, Clone, Copy, PartialEq, Eq, Structural)]
pub enum SuperviseAction {
    /// The manager stopped: end the loop.
    Stop,
    /// The chain is still running: look again later.
    Wait,
    /// Too many exits too fast: give up and enter safe mode.
    EnterSafeMode,
    /// Start the chain again after this many seconds.
    Respawn { after_secs: u64 },
}

impl CrashTracker {
    /// One look at the chain: nothing while it runs, and on an exit either
    /// safe mode (the limit is reached) or a respawn after the backoff.
    pub fn supervise(&mut self, running: bool, exited: bool) -> (a: SuperviseAction)
        ensures
            !running ==> a == SuperviseAction::Stop && final(self).exits_spec() == old(
                self,
            ).exits_spec(),
            running && !exited ==> a == SuperviseAction::Wait && final(self).exits_spec() == old(
                self,
            ).exits_spec(),
            running && exited ==> (exists|now: u64|
                final(self).exits_spec() == #[trigger] recent(old(self).exits_spec().push(now), now))
                && if final(self).exits_spec().len() >= CRASH_LIMIT {
                a == SuperviseAction::EnterSafeMode
            } else {
                a == (SuperviseAction::Respawn {
                    after_secs: backoff_spec(final(self).exits_spec().len()),
                })
            },
    {
        if !running {
            return SuperviseAction::Stop;
        }
        if !exited {
            return SuperviseAction::Wait;
        }
        if self.record_exit() {
            SuperviseAction::EnterSafeMode
        } else {
            SuperviseAction::Respawn { after_secs: self.backoff() }
        }
    }
}

/// What waiting for the chain's nodes does after one look at the graph.
#[derive(Debug, Clone, PartialEq, Eq)]
pub enum NodeWait {
    /// Every chain's node is in the graph, with these ids.
    Ready { game: u32, chat: u32 },
    /// Past the deadline: give up.
    TimedOut(CoreError),
    /// Look again after the poll interval.
    Retry,
}

/// One look at the graph while the chain starts: the ids that resolved
/// (`None` where a node is not there yet), the time now and the deadline.
pub fn node_wait(game: Option<u32>, chat: Option<u32>, now: u64, deadline: u64) -> (r: NodeWait)
    ensures
        game is Some && chat is Some ==> r == (NodeWait::Ready { game: game->0, chat: chat->0 }),
        !(game is Some && chat is Some) && now >= deadline ==> (r matches NodeWait::TimedOut(
            CoreError::NodeNotFound(m),
        ) && m@ == "timed out waiting for EQ filter-chain nodes"@),
        !(game is Some && chat is Some) && now < deadline ==> r == NodeWait::Retry,
{
    match (game, chat) {
        (Some(g), Some(c)) => NodeWait::Ready { game: g, chat: c },
        _ => if now >= deadline {
            NodeWait::TimedOut(
                CoreError::NodeNotFound(
                    String::from_str("timed out waiting for EQ filter-chain nodes"),
                ),
            )
        } else {
            NodeWait::Retry
        },
    }
}

/// The error for a chain the state does not hold.
pub fn chain_not_found(chain: EqChainId) -> (e: CoreError)
    ensures
        e matches CoreError::NodeNotFound(m) && m@ == (match chain {
            EqChainId::Game => "Game chain"@,
            EqChainId::Chat => "Chat chain"@,
        }),
{
    match chain {
        EqChainId::Game => CoreError::NodeNotFound(String::from_str("Game chain")),
        EqChainId::Chat => CoreError::NodeNotFound(String::from_str("Chat chain")),
    }
}

} // verus!
