//! PipeWire liveness: when to probe again and when to re-apply state.

use vstd::prelude::*;

verus! {

/// Probe interval while PipeWire answers, in milliseconds.
pub const PROBE_INTERVAL_MS: u64 = 2000;

/// Longest wait between probes while it does not.
pub const BACKOFF_MAX_MS: u64 = 30000;

/// What the supervision loop remembers between probes.
#[derive(Debug, Clone, Copy, PartialEq, Eq, Structural)]
pub struct Supervisor {
    was_down: bool,
    backoff_ms: u64,
}

/// What to do after a probe.
#[derive(Debug, Clone, Copy, PartialEq, Eq, Structural)]
pub enum ProbeAction {
    /// Nothing to do.
    Idle,
    /// PipeWire is back: re-apply the desired state.
    Resync,
    /// PipeWire just went away: say so once.
    ReportDown,
}

impl Supervisor {
    /// The wait before the next probe stays within its bounds.
    #[verifier::type_invariant]
    spec fn bounded(self) -> bool {
        PROBE_INTERVAL_MS <= self.backoff_ms <= BACKOFF_MAX_MS
    }

    /// Whether PipeWire was down at the last probe and not yet resynced.
    pub closed spec fn down(self) -> bool {
        self.was_down
    }

    /// The wait before the next probe, in milliseconds.
    pub closed spec fn backoff(self) -> u64 {
        self.backoff_ms
    }

    pub fn was_down(&self) -> (r: bool)
        ensures
            r == self.down(),
    {
        self.was_down
    }

    /// The wait before the next probe; always between the probe interval
    /// and the cap.
    pub fn backoff_ms(&self) -> (r: u64)
        ensures
            r == self.backoff(),
            PROBE_INTERVAL_MS <= r <= BACKOFF_MAX_MS,
    {
        proof {
            use_type_invariant(self);
        }
        self.backoff_ms
    }

    pub fn new() -> (s: Supervisor)
        ensures
            !s.down(),
            s.backoff() == PROBE_INTERVAL_MS,
    {
        Supervisor { was_down: false, backoff_ms: PROBE_INTERVAL_MS }
    }

    /// Take in one probe result. A success resets the interval and, after an
    /// outage, asks for a resync; a failure doubles the interval up to the
    /// cap and reports the outage once.
    pub fn on_probe(&mut self, ok: bool) -> (a: ProbeAction)
        ensures
            PROBE_INTERVAL_MS <= final(self).backoff() <= BACKOFF_MAX_MS,
            ok ==> final(self).backoff() == PROBE_INTERVAL_MS && final(self).down() == old(
                self,
            ).down() && a == if old(self).down() {
                ProbeAction::Resync
            } else {
                ProbeAction::Idle
            },
            !ok ==> final(self).down() && final(self).backoff() == if old(self).backoff() * 2
                < BACKOFF_MAX_MS {
                old(self).backoff() * 2
            } else {
                BACKOFF_MAX_MS as int
            } && a == if old(self).down() {
                ProbeAction::Idle
            } else {
                ProbeAction::ReportDown
            },
    {
        proof {
            use_type_invariant(&*self);
        }
        if ok {
            self.backoff_ms = PROBE_INTERVAL_MS;
            if self.was_down {
                ProbeAction::Resync
            } else {
                ProbeAction::Idle
            }
        } else {
            let reported = self.was_down;
            self.was_down = true;
            let doubled = self.backoff_ms * 2;
            let next = if doubled < BACKOFF_MAX_MS {
                doubled
            } else {
                BACKOFF_MAX_MS
            };
            self.backoff_ms = next;
            if reported {
                ProbeAction::Idle
            } else {
                ProbeAction::ReportDown
            }
        }
    }

    /// Take in the outcome of a resync: only a successful one ends the
    /// outage, so a failed one is retried after the next good probe.
    pub fn on_resync(&mut self, ok: bool)
        ensures
            final(self).backoff() == old(self).backoff(),
            final(self).down() == (old(self).down() && !ok),
    {
        proof {
            use_type_invariant(&*self);
        }
        if ok {
            self.was_down = false;
        }
    }
}

} // verus!
