//! What the core does for each request, decided before any of it is done:
//! the one call it makes (to the graph, the devices, the configuration, the
//! ChatMix controller or the EQ) and what follows a successful call (which
//! answer, and which event is published). The session methods belong to the
//! daemon and are refused here.

use crate::control::error::CoreError;
use crate::control::sinks::clamp_percent;
use crate::proto::{DeviceId, EqBand, EqChainId, PortRef, Request, SinkConfig, StreamRef, UserDevice};
use vstd::prelude::*;
use vstd::string::*;

verus! {

/// The one operation a request asks for. Percentages arrive clamped to
/// 0..=100 and band indices widened.
#[derive(Debug)]
pub enum Call<F> {
    Snapshot,
    ListStreams,
    MoveStream { stream: StreamRef, sink: String },
    MoveStreamToDefault { stream: StreamRef },
    SetStreamVolume { stream: StreamRef, pct: u8 },
    SetStreamMute { stream: StreamRef, mute: bool },
    StreamIcon { key: String },
    CreateSink { config: SinkConfig },
    DeleteSink { name: String },
    ListSinks,
    SetSinkVolume { sink: String, pct: u8 },
    DefaultSink,
    CurrentRoute { sink: String },
    RouteSink { sink: String, device: String },
    ListOutputDevices,
    ListNodePorts { node: String },
    Link { source: PortRef, target: PortRef },
    Unlink { source: PortRef, target: PortRef },
    RefreshDevices,
    /// Nothing to do before answering.
    NoCall,
    SelectDevice { device: DeviceId },
    ClearSelection,
    LoadUserDevices,
    AddUserDevice { device: UserDevice },
    RemoveUserDevice { name: String },
    SetChatmix { value: Option<u8> },
    EqSetChainEnabled { chain: EqChainId, enabled: bool },
    EqSetBand { chain: EqChainId, index: usize, band: EqBand<F> },
    EqAddBand { chain: EqChainId, band: EqBand<F> },
    EqRemoveBand { chain: EqChainId, index: usize },
    EqSetPreamp { chain: EqChainId, preamp_db: F },
    SavePreset { name: String, chain: EqChainId },
    ApplyPreset { name: String, chain: EqChainId },
    DeletePreset { name: String },
    ResetSafeMode,
    CheckDeps,
    CheckUdev,
}

/// What follows a successful call.
#[derive(Debug, Clone, Copy, PartialEq, Eq, Structural)]
pub enum Then {
    /// The call's own result is the answer.
    Direct,
    /// List the streams, publish them as a stream-list change, answer them.
    PublishStreams,
    /// List the sinks, publish them as a sink-list change, answer them.
    PublishSinks,
    /// Answer the managed sinks among those the call listed.
    ManagedSinks,
    /// Publish a graph change and answer with nothing.
    GraphChanged,
    /// Answer the supported devices.
    Devices,
    /// Answer the selected device.
    Selected,
    /// Answer the user devices as they now stand.
    UserDevices,
    /// Answer the ChatMix state.
    Chatmix,
    /// Answer the EQ state.
    EqState,
    /// Answer the preset list.
    Presets,
}

/// A selection without a device clears the selection.
pub open spec fn selection_call<F>(device: Option<DeviceId>) -> Call<F> {
    match device {
        Some(id) => Call::SelectDevice { device: id },
        None => Call::ClearSelection,
    }
}

pub open spec fn clamp_spec(pct: u8) -> u8 {
    if pct > 100 { 100 } else { pct }
}

/// The plan for `r`, or `None` for a session method.
pub open spec fn plan_spec<F>(r: Request<F>) -> Option<(Call<F>, Then)> {
    match r {
        Request::SessionHello { .. } | Request::SessionSubscribe { .. } => None,
        Request::DeviceSetSelected { device } => Some((selection_call(device), Then::Selected)),
        Request::SessionSnapshot => Some((Call::Snapshot, Then::Direct)),
        Request::StreamList => Some((Call::ListStreams, Then::Direct)),
        Request::StreamMove { stream, sink } => Some((Call::MoveStream { stream, sink }, Then::PublishStreams)),
        Request::StreamUnassign { stream } => Some((Call::MoveStreamToDefault { stream }, Then::PublishStreams)),
        Request::StreamSetVolume { stream, pct } => Some((Call::SetStreamVolume { stream, pct: clamp_spec(pct) }, Then::PublishStreams)),
        Request::StreamSetMute { stream, mute } => Some((Call::SetStreamMute { stream, mute }, Then::PublishStreams)),
        Request::StreamIcon { key } => Some((Call::StreamIcon { key }, Then::Direct)),
        Request::SinkCreate { config } => Some((Call::CreateSink { config }, Then::PublishSinks)),
        Request::SinkDelete { name } => Some((Call::DeleteSink { name }, Then::PublishSinks)),
        Request::SinkListCustom => Some((Call::ListSinks, Then::ManagedSinks)),
        Request::SinkSetVolume { sink, pct } => Some((Call::SetSinkVolume { sink, pct: clamp_spec(pct) }, Then::PublishSinks)),
        Request::SinkDefault => Some((Call::DefaultSink, Then::Direct)),
        Request::SinkCurrentRoute { sink } => Some((Call::CurrentRoute { sink }, Then::Direct)),
        Request::SinkRouteToDevice { sink, device } => Some((Call::RouteSink { sink, device }, Then::PublishSinks)),
        Request::SinkListOutputDevices => Some((Call::ListOutputDevices, Then::Direct)),
        Request::GraphListNodePorts { node } => Some((Call::ListNodePorts { node }, Then::Direct)),
        Request::GraphLink { source, target } => Some((Call::Link { source, target }, Then::GraphChanged)),
        Request::GraphUnlink { source, target } => Some((Call::Unlink { source, target }, Then::GraphChanged)),
        Request::DeviceListSupported => Some((Call::RefreshDevices, Then::Devices)),
        Request::DeviceGetSelected => Some((Call::NoCall, Then::Selected)),
        Request::DeviceListUser => Some((Call::LoadUserDevices, Then::UserDevices)),
        Request::DeviceAddUser { device } => Some((Call::AddUserDevice { device }, Then::UserDevices)),
        Request::DeviceRemoveUser { name } => Some((Call::RemoveUserDevice { name }, Then::UserDevices)),
        Request::ChatmixSetManual { value } => Some((Call::SetChatmix { value }, Then::Chatmix)),
        Request::EqGetState => Some((Call::NoCall, Then::EqState)),
        Request::EqSetChainEnabled { chain, enabled } => Some((Call::EqSetChainEnabled { chain, enabled }, Then::EqState)),
        Request::EqSetBand { chain, index, band } => Some((Call::EqSetBand { chain, index: index as usize, band }, Then::EqState)),
        Request::EqAddBand { chain, band } => Some((Call::EqAddBand { chain, band }, Then::EqState)),
        Request::EqRemoveBand { chain, index } => Some((Call::EqRemoveBand { chain, index: index as usize }, Then::EqState)),
        Request::EqSetPreamp { chain, preamp_db } => Some((Call::EqSetPreamp { chain, preamp_db }, Then::EqState)),
        Request::EqListPresets => Some((Call::NoCall, Then::Presets)),
        Request::EqSavePreset { name, chain } => Some((Call::SavePreset { name, chain }, Then::Presets)),
        Request::EqApplyPreset { name, chain } => Some((Call::ApplyPreset { name, chain }, Then::EqState)),
        Request::EqDeletePreset { name } => Some((Call::DeletePreset { name }, Then::Presets)),
        Request::EqResetSafeMode => Some((Call::ResetSafeMode, Then::EqState)),
        Request::SystemCheckDeps => Some((Call::CheckDeps, Then::Direct)),
        Request::SystemCheckUdev => Some((Call::CheckUdev, Then::Direct)),
        Request::SystemInstallUdev => Some((Call::CheckUdev, Then::Direct)),
    }
}

/// The plan for a request: the call, then what follows it. Session methods
/// are the daemon's and are refused.
pub fn plan<F>(request: Request<F>) -> (r: Result<(Call<F>, Then), CoreError>)
    ensures
        plan_spec(request) matches Some(p) ==> r == Ok::<(Call<F>, Then), CoreError>(p),
        plan_spec(request) is None ==> (r matches Err(CoreError::Invalid(m)) && m@
            == "session methods are handled by the daemon"@),
{
    match request {
        Request::SessionHello { .. } | Request::SessionSubscribe { .. } => Err(
            CoreError::Invalid(String::from_str("session methods are handled by the daemon")),
        ),
        Request::DeviceSetSelected { device } => Ok((
            match device {
                Some(id) => Call::SelectDevice { device: id },
                None => Call::ClearSelection,
            },
            Then::Selected,
        )),
        Request::SessionSnapshot => Ok((Call::Snapshot, Then::Direct)),
        Request::StreamList => Ok((Call::ListStreams, Then::Direct)),
        Request::StreamMove { stream, sink } => Ok((Call::MoveStream { stream, sink }, Then::PublishStreams)),
        Request::StreamUnassign { stream } => Ok((Call::MoveStreamToDefault { stream }, Then::PublishStreams)),
        Request::StreamSetVolume { stream, pct } => Ok((Call::SetStreamVolume { stream, pct: clamp_percent(pct) }, Then::PublishStreams)),
        Request::StreamSetMute { stream, mute } => Ok((Call::SetStreamMute { stream, mute }, Then::PublishStreams)),
        Request::StreamIcon { key } => Ok((Call::StreamIcon { key }, Then::Direct)),
        Request::SinkCreate { config } => Ok((Call::CreateSink { config }, Then::PublishSinks)),
        Request::SinkDelete { name } => Ok((Call::DeleteSink { name }, Then::PublishSinks)),
        Request::SinkListCustom => Ok((Call::ListSinks, Then::ManagedSinks)),
        Request::SinkSetVolume { sink, pct } => Ok((Call::SetSinkVolume { sink, pct: clamp_percent(pct) }, Then::PublishSinks)),
        Request::SinkDefault => Ok((Call::DefaultSink, Then::Direct)),
        Request::SinkCurrentRoute { sink } => Ok((Call::CurrentRoute { sink }, Then::Direct)),
        Request::SinkRouteToDevice { sink, device } => Ok((Call::RouteSink { sink, device }, Then::PublishSinks)),
        Request::SinkListOutputDevices => Ok((Call::ListOutputDevices, Then::Direct)),
        Request::GraphListNodePorts { node } => Ok((Call::ListNodePorts { node }, Then::Direct)),
        Request::GraphLink { source, target } => Ok((Call::Link { source, target }, Then::GraphChanged)),
        Request::GraphUnlink { source, target } => Ok((Call::Unlink { source, target }, Then::GraphChanged)),
        Request::DeviceListSupported => Ok((Call::RefreshDevices, Then::Devices)),
        Request::DeviceGetSelected => Ok((Call::NoCall, Then::Selected)),
        Request::DeviceListUser => Ok((Call::LoadUserDevices, Then::UserDevices)),
        Request::DeviceAddUser { device } => Ok((Call::AddUserDevice { device }, Then::UserDevices)),
        Request::DeviceRemoveUser { name } => Ok((Call::RemoveUserDevice { name }, Then::UserDevices)),
        Request::ChatmixSetManual { value } => Ok((Call::SetChatmix { value }, Then::Chatmix)),
        Request::EqGetState => Ok((Call::NoCall, Then::EqState)),
        Request::EqSetChainEnabled { chain, enabled } => Ok((Call::EqSetChainEnabled { chain, enabled }, Then::EqState)),
        Request::EqSetBand { chain, index, band } => Ok((Call::EqSetBand { chain, index: index as usize, band }, Then::EqState)),
        Request::EqAddBand { chain, band } => Ok((Call::EqAddBand { chain, band }, Then::EqState)),
        Request::EqRemoveBand { chain, index } => Ok((Call::EqRemoveBand { chain, index: index as usize }, Then::EqState)),
        Request::EqSetPreamp { chain, preamp_db } => Ok((Call::EqSetPreamp { chain, preamp_db }, Then::EqState)),
        Request::EqListPresets => Ok((Call::NoCall, Then::Presets)),
        Request::EqSavePreset { name, chain } => Ok((Call::SavePreset { name, chain }, Then::Presets)),
        Request::EqApplyPreset { name, chain } => Ok((Call::ApplyPreset { name, chain }, Then::EqState)),
        Request::EqDeletePreset { name } => Ok((Call::DeletePreset { name }, Then::Presets)),
        Request::EqResetSafeMode => Ok((Call::ResetSafeMode, Then::EqState)),
        Request::SystemCheckDeps => Ok((Call::CheckDeps, Then::Direct)),
        Request::SystemCheckUdev => Ok((Call::CheckUdev, Then::Direct)),
        Request::SystemInstallUdev => Ok((Call::CheckUdev, Then::Direct)),
    }
}

/// The data a request or a call carries, field by field: `None` where it
/// carries no such field. `selected` is the device a selection names, and
/// `None` inside it clears the selection.
pub struct Args<F> {
    pub stream: Option<StreamRef>,
    pub sink: Option<String>,
    pub device: Option<String>,
    pub pct: Option<u8>,
    pub mute: Option<bool>,
    pub key: Option<String>,
    pub config: Option<SinkConfig>,
    pub name: Option<String>,
    pub node: Option<String>,
    pub source: Option<PortRef>,
    pub target: Option<PortRef>,
    pub selected: Option<Option<DeviceId>>,
    pub user: Option<UserDevice>,
    pub value: Option<Option<u8>>,
    pub chain: Option<EqChainId>,
    pub enabled: Option<bool>,
    pub index: Option<usize>,
    pub band: Option<EqBand<F>>,
    pub preamp: Option<F>,
}

pub open spec fn no_args<F>() -> Args<F> {
    Args {
        stream: None,
        sink: None,
        device: None,
        pct: None,
        mute: None,
        key: None,
        config: None,
        name: None,
        node: None,
        source: None,
        target: None,
        selected: None,
        user: None,
        value: None,
        chain: None,
        enabled: None,
        index: None,
        band: None,
        preamp: None,
    }
}

/// What a request carries.
pub open spec fn request_args<F>(r: Request<F>) -> Args<F> {
    match r {
        Request::SessionHello { .. } | Request::SessionSubscribe { .. } => no_args(),
        Request::SessionSnapshot => no_args(),
        Request::StreamList => no_args(),
        Request::StreamMove { stream, sink } => Args { stream: Some(stream), sink: Some(sink), ..no_args() },
        Request::StreamUnassign { stream } => Args { stream: Some(stream), ..no_args() },
        Request::StreamSetVolume { stream, pct } => Args { stream: Some(stream), pct: Some(pct), ..no_args() },
        Request::StreamSetMute { stream, mute } => Args { stream: Some(stream), mute: Some(mute), ..no_args() },
        Request::StreamIcon { key } => Args { key: Some(key), ..no_args() },
        Request::SinkCreate { config } => Args { config: Some(config), ..no_args() },
        Request::SinkDelete { name } => Args { name: Some(name), ..no_args() },
        Request::SinkListCustom => no_args(),
        Request::SinkSetVolume { sink, pct } => Args { sink: Some(sink), pct: Some(pct), ..no_args() },
        Request::SinkDefault => no_args(),
        Request::SinkCurrentRoute { sink } => Args { sink: Some(sink), ..no_args() },
        Request::SinkRouteToDevice { sink, device } => Args { sink: Some(sink), device: Some(device), ..no_args() },
        Request::SinkListOutputDevices => no_args(),
        Request::GraphListNodePorts { node } => Args { node: Some(node), ..no_args() },
        Request::GraphLink { source, target } => Args { source: Some(source), target: Some(target), ..no_args() },
        Request::GraphUnlink { source, target } => Args { source: Some(source), target: Some(target), ..no_args() },
        Request::DeviceListSupported => no_args(),
        Request::DeviceGetSelected => no_args(),
        Request::DeviceSetSelected { device } => Args { selected: Some(device), ..no_args() },
        Request::DeviceListUser => no_args(),
        Request::DeviceAddUser { device } => Args { user: Some(device), ..no_args() },
        Request::DeviceRemoveUser { name } => Args { name: Some(name), ..no_args() },
        Request::ChatmixSetManual { value } => Args { value: Some(value), ..no_args() },
        Request::EqGetState => no_args(),
        Request::EqSetChainEnabled { chain, enabled } => Args { chain: Some(chain), enabled: Some(enabled), ..no_args() },
        Request::EqSetBand { chain, index, band } => Args { chain: Some(chain), index: Some(index as usize), band: Some(band), ..no_args() },
        Request::EqAddBand { chain, band } => Args { chain: Some(chain), band: Some(band), ..no_args() },
        Request::EqRemoveBand { chain, index } => Args { chain: Some(chain), index: Some(index as usize), ..no_args() },
        Request::EqSetPreamp { chain, preamp_db } => Args { chain: Some(chain), preamp: Some(preamp_db), ..no_args() },
        Request::EqListPresets => no_args(),
        Request::EqSavePreset { name, chain } => Args { name: Some(name), chain: Some(chain), ..no_args() },
        Request::EqApplyPreset { name, chain } => Args { name: Some(name), chain: Some(chain), ..no_args() },
        Request::EqDeletePreset { name } => Args { name: Some(name), ..no_args() },
        Request::EqResetSafeMode => no_args(),
        Request::SystemCheckDeps => no_args(),
        Request::SystemCheckUdev => no_args(),
        Request::SystemInstallUdev => no_args(),
    }
}

/// What a call carries.
pub open spec fn call_args<F>(c: Call<F>) -> Args<F> {
    match c {
        Call::Snapshot => no_args(),
        Call::ListStreams => no_args(),
        Call::MoveStream { stream, sink } => Args { stream: Some(stream), sink: Some(sink), ..no_args() },
        Call::MoveStreamToDefault { stream } => Args { stream: Some(stream), ..no_args() },
        Call::SetStreamVolume { stream, pct } => Args { stream: Some(stream), pct: Some(pct), ..no_args() },
        Call::SetStreamMute { stream, mute } => Args { stream: Some(stream), mute: Some(mute), ..no_args() },
        Call::StreamIcon { key } => Args { key: Some(key), ..no_args() },
        Call::CreateSink { config } => Args { config: Some(config), ..no_args() },
        Call::DeleteSink { name } => Args { name: Some(name), ..no_args() },
        Call::ListSinks => no_args(),
        Call::SetSinkVolume { sink, pct } => Args { sink: Some(sink), pct: Some(pct), ..no_args() },
        Call::DefaultSink => no_args(),
        Call::CurrentRoute { sink } => Args { sink: Some(sink), ..no_args() },
        Call::RouteSink { sink, device } => Args { sink: Some(sink), device: Some(device), ..no_args() },
        Call::ListOutputDevices => no_args(),
        Call::ListNodePorts { node } => Args { node: Some(node), ..no_args() },
        Call::Link { source, target } => Args { source: Some(source), target: Some(target), ..no_args() },
        Call::Unlink { source, target } => Args { source: Some(source), target: Some(target), ..no_args() },
        Call::RefreshDevices => no_args(),
        Call::NoCall => no_args(),
        Call::SelectDevice { device } => Args { selected: Some(Some(device)), ..no_args() },
        Call::ClearSelection => Args { selected: Some(None), ..no_args() },
        Call::LoadUserDevices => no_args(),
        Call::AddUserDevice { device } => Args { user: Some(device), ..no_args() },
        Call::RemoveUserDevice { name } => Args { name: Some(name), ..no_args() },
        Call::SetChatmix { value } => Args { value: Some(value), ..no_args() },
        Call::EqSetChainEnabled { chain, enabled } => Args { chain: Some(chain), enabled: Some(enabled), ..no_args() },
        Call::EqSetBand { chain, index, band } => Args { chain: Some(chain), index: Some(index), band: Some(band), ..no_args() },
        Call::EqAddBand { chain, band } => Args { chain: Some(chain), band: Some(band), ..no_args() },
        Call::EqRemoveBand { chain, index } => Args { chain: Some(chain), index: Some(index), ..no_args() },
        Call::EqSetPreamp { chain, preamp_db } => Args { chain: Some(chain), preamp: Some(preamp_db), ..no_args() },
        Call::SavePreset { name, chain } => Args { name: Some(name), chain: Some(chain), ..no_args() },
        Call::ApplyPreset { name, chain } => Args { name: Some(name), chain: Some(chain), ..no_args() },
        Call::DeletePreset { name } => Args { name: Some(name), ..no_args() },
        Call::ResetSafeMode => no_args(),
        Call::CheckDeps => no_args(),
        Call::CheckUdev => no_args(),
    }
}

/// A percentage as the backend takes it: at most 100.
pub open spec fn at_most_100(p: Option<u8>) -> Option<u8> {
    match p {
        Some(x) => Some(if x > 100 { 100u8 } else { x }),
        None => None,
    }
}

/// Every request but the session's own is planned, and the planned call
/// carries exactly the request's data (a mute flag, an enable flag, a
/// stream, a name, a band, a chain...), unchanged but for a percentage,
/// which is held to 100.
pub proof fn lemma_plan_carries_arguments<F>(r: Request<F>)
    ensures
        plan_spec(r) is None <==> (r is SessionHello || r is SessionSubscribe),
        plan_spec(r) is Some ==> call_args((plan_spec(r)->0).0) == (Args {
            pct: at_most_100(request_args(r).pct),
            ..request_args(r)
        }),
{
}

/// Two requests that differ only in a volume above 100, or that both check
/// the udev rule, ask for the same work.
pub open spec fn same_work<F>(r1: Request<F>, r2: Request<F>) -> bool {
    ||| r1 == r2
    ||| (r1 is SystemCheckUdev || r1 is SystemInstallUdev) && (r2 is SystemCheckUdev
        || r2 is SystemInstallUdev)
    ||| r1 matches Request::StreamSetVolume { stream: s1, pct: p1 } && r2 matches Request::StreamSetVolume {
        stream: s2,
        pct: p2,
    } && s1 == s2 && p1 >= 100 && p2 >= 100
    ||| r1 matches Request::SinkSetVolume { sink: s1, pct: p1 } && r2 matches Request::SinkSetVolume {
        sink: s2,
        pct: p2,
    } && s1 == s2 && p1 >= 100 && p2 >= 100
}

/// Different requests plan different work: the plan tells every request
/// apart (a link from an unlink, one preset operation from another, one
/// list from another) but for those that ask for the same work.
pub proof fn lemma_plan_tells_requests_apart<F>(r1: Request<F>, r2: Request<F>)
    requires
        plan_spec(r1) is Some,
        plan_spec(r1) == plan_spec(r2),
    ensures
        same_work(r1, r2),
{
}

/// The event the dispatcher itself publishes after a successful call, by
/// name: a changed stream or sink list, or a changed graph. The EQ, the
/// ChatMix controller and the device selection announce their own changes.
pub open spec fn then_event_spec(t: Then) -> Option<Seq<char>> {
    match t {
        Then::PublishStreams => Some("stream.list_changed"@),
        Then::PublishSinks => Some("sink.list_changed"@),
        Then::GraphChanged => Some("graph.changed"@),
        _ => None,
    }
}

pub fn then_event(t: Then) -> (r: Option<&'static str>)
    ensures
        match r {
            Some(name) => then_event_spec(t) == Some(name@),
            None => then_event_spec(t) is None,
        },
{
    match t {
        Then::PublishStreams => Some("stream.list_changed"),
        Then::PublishSinks => Some("sink.list_changed"),
        Then::GraphChanged => Some("graph.changed"),
        _ => None,
    }
}


} // verus!
