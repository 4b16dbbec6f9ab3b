//! The EQ's lifecycle: when the filter chain is started, respawned or given
//! up on, when safe mode is entered and left, and when the state is saved.
//!
//! Each event answers with the steps to take, in order; the caller performs
//! them against the graph, the chain process and the configuration store.

use vstd::prelude::*;

verus! {

/// One step the EQ's owner performs.
#[derive(Debug, Clone, Copy, PartialEq, Eq, Structural)]
pub enum EqStep {
    /// Spawn the filter chain and wire it in.
    StartChain,
    /// Start the supervision and persistence loops.
    SpawnWorkers,
    /// Point each sink straight at its device, bypassing the EQ.
    RestoreDirectRouting,
    /// Stop the chain process.
    KillChild,
    /// Record (or clear) the safe-mode marker in the configuration.
    SetMarker(bool),
    /// Announce that safe mode was entered (or left).
    PublishSafeMode(bool),
    /// Save the EQ state.
    Persist,
    /// Announce the new EQ state.
    PublishState,
}

/// What the EQ's owner remembers: safe mode, whether the loops run,
/// whether a chain process is up, and whether unsaved edits exist.
#[derive(Debug, Clone, Copy, PartialEq, Eq, Structural)]
pub struct EqLife {
    pub safe_mode: bool,
    pub running: bool,
    pub child: bool,
    pub dirty: bool,
}

/// Start-up: in safe mode only announce it; with the chain already up and
/// supervised do nothing; otherwise start the chain.
pub open spec fn init_steps(s: EqLife) -> Seq<EqStep> {
    if s.safe_mode {
        seq![EqStep::PublishSafeMode(true)]
    } else if s.running && s.child {
        seq![]
    } else {
        seq![EqStep::StartChain]
    }
}

/// Giving up on the chain: audio keeps flowing without it.
pub open spec fn safe_mode_steps() -> Seq<EqStep> {
    seq![
        EqStep::RestoreDirectRouting,
        EqStep::KillChild,
        EqStep::SetMarker(true),
        EqStep::PublishSafeMode(true),
    ]
}

/// The state after safe mode is entered.
pub open spec fn in_safe_mode(s: EqLife) -> EqLife {
    EqLife { safe_mode: true, running: false, child: false, dirty: s.dirty }
}

impl EqLife {
    /// Fresh, with the safe-mode marker as the configuration holds it.
    pub fn new(safe_mode: bool) -> (s: EqLife)
        ensures
            s == (EqLife { safe_mode, running: false, child: false, dirty: false }),
    {
        EqLife { safe_mode, running: false, child: false, dirty: false }
    }

    pub fn on_init(&self) -> (r: Vec<EqStep>)
        ensures
            r@ == init_steps(*self),
    {
        if self.safe_mode {
            vec![EqStep::PublishSafeMode(true)]
        } else if self.running && self.child {
            Vec::new()
        } else {
            vec![EqStep::StartChain]
        }
    }

    fn enter_safe_mode(&mut self) -> (r: Vec<EqStep>)
        ensures
            *final(self) == in_safe_mode(*old(self)),
            r@ == safe_mode_steps(),
    {
        self.running = false;
        self.child = false;
        self.safe_mode = true;
        vec![
            EqStep::RestoreDirectRouting,
            EqStep::KillChild,
            EqStep::SetMarker(true),
            EqStep::PublishSafeMode(true),
        ]
    }

    /// A start-up start finished: on success the chain is up and, the first
    /// time, the loops start; a failed start enters safe mode.
    pub fn on_started(&mut self, ok: bool) -> (r: Vec<EqStep>)
        ensures
            ok ==> *final(self) == (EqLife { child: true, running: true, ..*old(self) }) && r@ == if old(
                self,
            ).running {
                Seq::<EqStep>::empty()
            } else {
                seq![EqStep::SpawnWorkers]
            },
            !ok ==> *final(self) == in_safe_mode(*old(self)) && r@ == safe_mode_steps(),
    {
        if !ok {
            return self.enter_safe_mode();
        }
        self.child = true;
        if self.running {
            Vec::new()
        } else {
            self.running = true;
            vec![EqStep::SpawnWorkers]
        }
    }

    /// The chain process exited: a crash loop (`tripped`) enters safe mode,
    /// otherwise the chain is started again (after the tracker's backoff).
    pub fn on_child_exit(&mut self, tripped: bool) -> (r: Vec<EqStep>)
        ensures
            tripped ==> *final(self) == in_safe_mode(*old(self)) && r@ == safe_mode_steps(),
            !tripped ==> *final(self) == (EqLife { child: false, ..*old(self) }) && r@ == seq![
                EqStep::StartChain,
            ],
    {
        self.child = false;
        if tripped {
            return self.enter_safe_mode();
        }
        vec![EqStep::StartChain]
    }

    /// A respawn after an exit finished: on success the chain is up again;
    /// a failed respawn is left to the next supervision round.
    pub fn on_respawned(&mut self, ok: bool)
        ensures
            *final(self) == (EqLife { child: ok, ..*old(self) }),
    {
        self.child = ok;
    }

    /// An edit was made: it is announced now and saved by the next tick.
    pub fn on_mutation(&mut self) -> (r: Vec<EqStep>)
        ensures
            *final(self) == (EqLife { dirty: true, ..*old(self) }),
            r@ == seq![EqStep::PublishState],
    {
        self.dirty = true;
        vec![EqStep::PublishState]
    }

    /// A persistence tick: unsaved edits are saved once. `false` when the
    /// loops have stopped and the tick should end its loop.
    pub fn on_persist_tick(&mut self) -> (r: (bool, Vec<EqStep>))
        ensures
            !old(self).running ==> r.0 == false && r.1@ == Seq::<EqStep>::empty() && *final(self)
                == *old(self),
            old(self).running ==> r.0 && *final(self) == (EqLife { dirty: false, ..*old(self) })
                && r.1@ == if old(self).dirty {
                seq![EqStep::Persist]
            } else {
                Seq::<EqStep>::empty()
            },
    {
        if !self.running {
            return (false, Vec::new());
        }
        if self.dirty {
            self.dirty = false;
            (true, vec![EqStep::Persist])
        } else {
            (true, Vec::new())
        }
    }

    /// Leaving safe mode, once the marker was cleared: announce it and start
    /// over as at start-up.
    pub fn on_marker_cleared(&mut self) -> (r: Vec<EqStep>)
        ensures
            *final(self) == (EqLife { safe_mode: false, ..*old(self) }),
            r@ == seq![EqStep::PublishSafeMode(false)] + init_steps(*final(self)),
    {
        self.safe_mode = false;
        let mut r = vec![EqStep::PublishSafeMode(false)];
        let mut more = self.on_init();
        r.append(&mut more);
        r
    }

    /// Shutting down: stop the loops, bypass the EQ, stop the chain and save.
    pub fn on_shutdown(&mut self) -> (r: Vec<EqStep>)
        ensures
            *final(self) == (EqLife { running: false, child: false, ..*old(self) }),
            r@ == seq![EqStep::RestoreDirectRouting, EqStep::KillChild, EqStep::Persist],
    {
        self.running = false;
        self.child = false;
        vec![EqStep::RestoreDirectRouting, EqStep::KillChild, EqStep::Persist]
    }
}

/// Once in safe mode the chain is never started again until safe mode is
/// left: start-up only announces it, and whenever safe mode is entered the
/// direct links are restored before anything else.
pub proof fn lemma_safe_mode_holds(s: EqLife)
    requires
        s.safe_mode,
    ensures
        !init_steps(s).contains(EqStep::StartChain),
        safe_mode_steps()[0] == EqStep::RestoreDirectRouting,
{
    assert(init_steps(s) =~= seq![EqStep::PublishSafeMode(true)]);
    if init_steps(s).contains(EqStep::StartChain) {
        let k = choose|k: int| 0 <= k < init_steps(s).len() && init_steps(s)[k] == EqStep::StartChain;
        assert(k == 0);
    }
}

} // verus!
