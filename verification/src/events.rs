//! Events the daemon pushes to subscribed sessions.

use crate::hid::registry::DeviceChange;
use crate::proto::{ChatMix, DeviceId, EqState, SinkInfo, StreamInfo};
use vstd::prelude::*;

verus! {

/// Something that changed, announced to every subscriber. List and state
/// changes carry the new list or state; `F` is the type of the EQ's numbers.
#[derive(Debug, Clone, PartialEq)]
#[allow(inconsistent_fields)]
pub enum Event<F> {
    StreamListChanged { streams: Vec<StreamInfo> },
    SinkListChanged { sinks: Vec<SinkInfo> },
    GraphChanged,
    DeviceAttached { device: DeviceId },
    DeviceDetached { device: DeviceId },
    DeviceSelectionChanged { device: Option<DeviceId> },
    ChatmixChanged(ChatMix),
    EqStateChanged(EqState<F>),
    EqSafeMode { active: bool },
    DaemonShuttingDown,
}

/// The wire name of an event, which subscriptions filter on.
pub open spec fn event_name<F>(e: Event<F>) -> Seq<char> {
    match e {
        Event::StreamListChanged { .. } => "stream.list_changed"@,
        Event::SinkListChanged { .. } => "sink.list_changed"@,
        Event::GraphChanged => "graph.changed"@,
        Event::DeviceAttached { .. } => "device.attached"@,
        Event::DeviceDetached { .. } => "device.detached"@,
        Event::DeviceSelectionChanged { .. } => "device.selection_changed"@,
        Event::ChatmixChanged(_) => "chatmix.changed"@,
        Event::EqStateChanged(_) => "eq.state_changed"@,
        Event::EqSafeMode { .. } => "eq.safe_mode"@,
        Event::DaemonShuttingDown => "daemon.shutting_down"@,
    }
}

impl<F> Event<F> {
    pub fn name(&self) -> (r: &'static str)
        ensures
            r@ == event_name(*self),
    {
        match self {
            Event::StreamListChanged { .. } => "stream.list_changed",
            Event::SinkListChanged { .. } => "sink.list_changed",
            Event::GraphChanged => "graph.changed",
            Event::DeviceAttached { .. } => "device.attached",
            Event::DeviceDetached { .. } => "device.detached",
            Event::DeviceSelectionChanged { .. } => "device.selection_changed",
            Event::ChatmixChanged(_) => "chatmix.changed",
            Event::EqStateChanged(_) => "eq.state_changed",
            Event::EqSafeMode { .. } => "eq.safe_mode",
            Event::DaemonShuttingDown => "daemon.shutting_down",
        }
    }
}

/// What a change in what is plugged in is announced as.
pub open spec fn change_event<F>(c: DeviceChange) -> Event<F> {
    match c {
        DeviceChange::Attached(device) => Event::DeviceAttached { device },
        DeviceChange::Detached(device) => Event::DeviceDetached { device },
    }
}

/// One event per change, in the order the changes came.
pub fn change_events<F>(changes: &Vec<DeviceChange>) -> (r: Vec<Event<F>>)
    ensures
        r@ == changes@.map_values(|c: DeviceChange| change_event::<F>(c)),
{
    let mut out: Vec<Event<F>> = Vec::new();
    let mut i: usize = 0;
    while i < changes.len()
        invariant
            i <= changes@.len(),
            out@ == changes@.map_values(|c: DeviceChange| change_event::<F>(c)).take(i as int),
        decreases changes@.len() - i,
    {
        let e = match changes[i] {
            DeviceChange::Attached(device) => Event::DeviceAttached { device },
            DeviceChange::Detached(device) => Event::DeviceDetached { device },
        };
        out.push(e);
        assert(out@ =~= changes@.map_values(|c: DeviceChange| change_event::<F>(c)).take(i as int + 1));
        i = i + 1;
    }
    assert(changes@.map_values(|c: DeviceChange| change_event::<F>(c)).take(changes@.len() as int)
        =~= changes@.map_values(|c: DeviceChange| change_event::<F>(c)));
    out
}

} // verus!
