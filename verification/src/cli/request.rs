//! From a parsed command line to the protocol request it sends.

use crate::cli::commands::{
    chain_id_spec, device_id_spec, filter_type_spec, is_none_word, parse_device_id, parse_port,
    port_error_message, device_id_error_message, split_once_spec, stream_ref, ChatmixCmd, Command,
    Chain, DeviceCmd, EqCmd, GraphCmd, SinkCmd, StreamCmd, SystemCmd,
};
use crate::proto::{
    port_view, EqBand, EqChainId, ErrorKind, FilterType, PwError, Request, Response, SinkConfig,
    SinkInfo, StreamRef, UserDevice,
};
use vstd::prelude::*;
use vstd::string::*;

verus! {

/// A stream addressed by `index` alone.
pub open spec fn stream_ref_of(s: StreamRef, index: u32) -> bool {
    s.index == index && s.app_name@ == Seq::<char>::empty() && s.pid is None
}

/// Subcommands the client answers itself, before any request is built.
pub open spec fn handled_before_dispatch<F>(c: Command<F>) -> bool {
    c is Watch || c is Teardown || c is Completions
}

pub open spec fn stream_request<F>(c: StreamCmd, r: Request<F>) -> bool {
    match c {
        StreamCmd::List => r == Request::<F>::StreamList,
        StreamCmd::Move { index, sink } => r matches Request::StreamMove { stream, sink: s }
            && stream_ref_of(stream, index) && s == sink,
        StreamCmd::Unassign { index } => r matches Request::StreamUnassign { stream }
            && stream_ref_of(stream, index),
        StreamCmd::SetVolume { index, pct } => r matches Request::StreamSetVolume { stream, pct: p }
            && stream_ref_of(stream, index) && p == pct,
        StreamCmd::SetMute { index, mute } => r matches Request::StreamSetMute { stream, mute: m }
            && stream_ref_of(stream, index) && m == mute,
        StreamCmd::Icon { key } => r == Request::<F>::StreamIcon { key },
    }
}

/// `sink list` asks for the managed sinks, as `sink list-custom` does.
pub open spec fn sink_request<F>(c: SinkCmd) -> Request<F> {
    match c {
        SinkCmd::List => Request::SinkListCustom,
        SinkCmd::ListCustom => Request::SinkListCustom,
        SinkCmd::Create { name, display_name } => Request::SinkCreate {
            config: SinkConfig {
                name,
                display_name: match display_name {
                    Some(d) => d,
                    None => name,
                },
            },
        },
        SinkCmd::Delete { name } => Request::SinkDelete { name },
        SinkCmd::SetVolume { sink, pct } => Request::SinkSetVolume { sink, pct },
        SinkCmd::Default => Request::SinkDefault,
        SinkCmd::Route { sink, device } => Request::SinkRouteToDevice { sink, device },
        SinkCmd::CurrentRoute { sink } => Request::SinkCurrentRoute { sink },
        SinkCmd::Devices => Request::SinkListOutputDevices,
    }
}

/// A link or unlink between two `node:port` arguments: the first that does
/// not parse is reported.
pub open spec fn link_result<F>(
    source: Seq<char>,
    target: Seq<char>,
    link: bool,
    r: Result<Request<F>, PwError>,
) -> bool {
    match (split_once_spec(source, ':'), split_once_spec(target, ':')) {
        (None, _) => r matches Err(e) && e.kind == ErrorKind::BadRequest && e.msg@
            == port_error_message(source),
        (Some(_), None) => r matches Err(e) && e.kind == ErrorKind::BadRequest && e.msg@
            == port_error_message(target),
        (Some((n1, p1)), Some((n2, p2))) => if link {
            r matches Ok(Request::GraphLink { source: s, target: t }) && port_view(s) == (
                n1,
                p1,
                None::<u32>,
            ) && port_view(t) == (n2, p2, None::<u32>)
        } else {
            r matches Ok(Request::GraphUnlink { source: s, target: t }) && port_view(s) == (
                n1,
                p1,
                None::<u32>,
            ) && port_view(t) == (n2, p2, None::<u32>)
        },
    }
}

pub open spec fn graph_result<F>(c: GraphCmd, r: Result<Request<F>, PwError>) -> bool {
    match c {
        GraphCmd::Ports { node } => r == Ok::<Request<F>, PwError>(
            Request::GraphListNodePorts { node },
        ),
        GraphCmd::Link { source, target } => link_result(source@, target@, true, r),
        GraphCmd::Unlink { source, target } => link_result(source@, target@, false, r),
    }
}

pub open spec fn device_result<F>(c: DeviceCmd, r: Result<Request<F>, PwError>) -> bool {
    match c {
        DeviceCmd::List => r == Ok::<Request<F>, PwError>(Request::DeviceListSupported),
        DeviceCmd::Selected => r == Ok::<Request<F>, PwError>(Request::DeviceGetSelected),
        DeviceCmd::Select { id } => if is_none_word(id@) {
            r == Ok::<Request<F>, PwError>(Request::DeviceSetSelected { device: None })
        } else {
            match device_id_spec(id@) {
                Some(d) => r == Ok::<Request<F>, PwError>(
                    Request::DeviceSetSelected { device: Some(d) },
                ),
                None => r matches Err(e) && e.kind == ErrorKind::BadRequest && e.msg@
                    == device_id_error_message(id@),
            }
        },
        DeviceCmd::ListUser => r == Ok::<Request<F>, PwError>(Request::DeviceListUser),
        DeviceCmd::AddUser { name, vendor_id, product_id, sink } => r == Ok::<
            Request<F>,
            PwError,
        >(
            Request::DeviceAddUser {
                device: UserDevice { name, vendor_id, product_id, pipewire_sink: sink },
            },
        ),
        DeviceCmd::RemoveUser { name } => r == Ok::<Request<F>, PwError>(
            Request::DeviceRemoveUser { name },
        ),
    }
}

/// `chatmix get` has no method of its own: it reads the snapshot.
pub open spec fn chatmix_request<F>(c: ChatmixCmd) -> Request<F> {
    match c {
        ChatmixCmd::Get => Request::SessionSnapshot,
        ChatmixCmd::SetValue { value } => Request::ChatmixSetManual { value: Some(value) },
        ChatmixCmd::Auto => Request::ChatmixSetManual { value: None },
    }
}

/// A band as typed: enabled, with the chosen filter shape.
pub open spec fn band_spec<F>(freq: F, gain: F, q: F, filter: crate::cli::commands::Filter) -> EqBand<
    F,
> {
    EqBand { freq, gain_db: gain, q, filter_type: filter_type_spec(filter), enabled: true }
}

pub open spec fn eq_request<F>(c: EqCmd<F>) -> Request<F> {
    match c {
        EqCmd::Get => Request::EqGetState,
        EqCmd::Enable { chain } => Request::EqSetChainEnabled {
            chain: chain_id_spec(chain),
            enabled: true,
        },
        EqCmd::Disable { chain } => Request::EqSetChainEnabled {
            chain: chain_id_spec(chain),
            enabled: false,
        },
        EqCmd::SetBand { chain, index, freq, gain, q, filter } => Request::EqSetBand {
            chain: chain_id_spec(chain),
            index,
            band: band_spec(freq, gain, q, filter),
        },
        EqCmd::AddBand { chain, freq, gain, q, filter } => Request::EqAddBand {
            chain: chain_id_spec(chain),
            band: band_spec(freq, gain, q, filter),
        },
        EqCmd::RemoveBand { chain, index } => Request::EqRemoveBand {
            chain: chain_id_spec(chain),
            index,
        },
        EqCmd::Preamp { chain, gain_db } => Request::EqSetPreamp {
            chain: chain_id_spec(chain),
            preamp_db: gain_db,
        },
        EqCmd::Presets => Request::EqListPresets,
        EqCmd::SavePreset { chain, name } => Request::EqSavePreset {
            name,
            chain: chain_id_spec(chain),
        },
        EqCmd::ApplyPreset { chain, name } => Request::EqApplyPreset {
            name,
            chain: chain_id_spec(chain),
        },
        EqCmd::DeletePreset { name } => Request::EqDeletePreset { name },
        EqCmd::ResetSafeMode => Request::EqResetSafeMode,
    }
}

pub open spec fn system_request<F>(c: SystemCmd) -> Request<F> {
    match c {
        SystemCmd::Deps => Request::SystemCheckDeps,
        SystemCmd::Udev => Request::SystemCheckUdev,
        SystemCmd::InstallUdev => Request::SystemInstallUdev,
    }
}

/// The request a command sends, or why its arguments do not make one.
pub open spec fn request_spec<F>(c: Command<F>, r: Result<Request<F>, PwError>) -> bool {
    match c {
        Command::Status => r == Ok::<Request<F>, PwError>(Request::SessionSnapshot),
        Command::Stream(s) => r matches Ok(q) && stream_request(s, q),
        Command::Sink(s) => r == Ok::<Request<F>, PwError>(sink_request(s)),
        Command::Graph(g) => graph_result(g, r),
        Command::Device(d) => device_result(d, r),
        Command::Chatmix(m) => r == Ok::<Request<F>, PwError>(chatmix_request(m)),
        Command::Eq(e) => r == Ok::<Request<F>, PwError>(eq_request(e)),
        Command::System(s) => r == Ok::<Request<F>, PwError>(system_request(s)),
        _ => false,
    }
}

/// The EQ chain a command names, if any.
pub open spec fn eq_cmd_chain<F>(c: EqCmd<F>) -> Option<Chain> {
    match c {
        EqCmd::Enable { chain } | EqCmd::Disable { chain } | EqCmd::RemoveBand { chain, .. }
        | EqCmd::SetBand { chain, .. } | EqCmd::AddBand { chain, .. } | EqCmd::Preamp { chain, .. }
        | EqCmd::SavePreset { chain, .. } | EqCmd::ApplyPreset { chain, .. } => Some(chain),
        _ => None,
    }
}

/// The EQ chain a request addresses, if any.
pub open spec fn request_chain<F>(r: Request<F>) -> Option<EqChainId> {
    match r {
        Request::EqSetChainEnabled { chain, .. } | Request::EqSetBand { chain, .. }
        | Request::EqAddBand { chain, .. } | Request::EqRemoveBand { chain, .. }
        | Request::EqSetPreamp { chain, .. } | Request::EqSavePreset { chain, .. }
        | Request::EqApplyPreset { chain, .. } => Some(chain),
        _ => None,
    }
}

/// `eq enable` turns the named chain on and `eq disable` turns it off: both
/// send the chain-enable request for that chain, with opposite flags, so
/// the two never send the same request. Every EQ command that names a chain
/// addresses that same chain (`game` the game chain, `chat` the chat one).
pub proof fn lemma_eq_commands_address_their_chain<F>(
    e: EqCmd<F>,
    chain: Chain,
    on: Result<Request<F>, PwError>,
    off: Result<Request<F>, PwError>,
    r: Result<Request<F>, PwError>,
)
    requires
        request_spec(Command::<F>::Eq(EqCmd::Enable { chain }), on),
        request_spec(Command::<F>::Eq(EqCmd::Disable { chain }), off),
        request_spec(Command::<F>::Eq(e), r),
    ensures
        on matches Ok(Request::EqSetChainEnabled { chain: a, enabled }) && enabled && (a
            == EqChainId::Game) == (chain == Chain::Game),
        off matches Ok(Request::EqSetChainEnabled { chain: b, enabled }) && !enabled && (b
            == EqChainId::Game) == (chain == Chain::Game),
        on != off,
        eq_cmd_chain(e) matches Some(c) ==> (r matches Ok(q) && request_chain(q) matches Some(id)
            && (id == EqChainId::Game) == (c == Chain::Game)),
{
}

/// Different EQ commands send different requests: the request a command
/// sends tells which command it was and with what arguments.
pub proof fn lemma_eq_requests_tell_commands_apart<F>(e1: EqCmd<F>, e2: EqCmd<F>, r: Result<Request<F>, PwError>)
    requires
        request_spec(Command::<F>::Eq(e1), r),
        request_spec(Command::<F>::Eq(e2), r),
    ensures
        e1 == e2,
{
}

/// Two sink commands that ask for the same thing: both list the managed
/// sinks, or both create the same sink, a missing display name standing
/// for the sink's own name.
pub open spec fn same_sink_ask(s1: SinkCmd, s2: SinkCmd) -> bool {
    ||| s1 == s2
    ||| (s1 is List || s1 is ListCustom) && (s2 is List || s2 is ListCustom)
    ||| s1 matches SinkCmd::Create { name: n1, display_name: d1 } && s2 matches SinkCmd::Create {
        name: n2,
        display_name: d2,
    } && n1 == n2 && (match d1 {
        Some(d) => d,
        None => n1,
    }) == (match d2 {
        Some(d) => d,
        None => n2,
    })
}

/// Likewise for the sink, ChatMix and system commands: sink commands send
/// the same request only when they ask for the same thing.
pub proof fn lemma_other_requests_tell_commands_apart<F>(
    s1: SinkCmd,
    s2: SinkCmd,
    m1: ChatmixCmd,
    m2: ChatmixCmd,
    y1: SystemCmd,
    y2: SystemCmd,
)
    ensures
        sink_request::<F>(s1) == sink_request::<F>(s2) ==> same_sink_ask(s1, s2),
        chatmix_request::<F>(m1) == chatmix_request::<F>(m2) ==> m1 == m2,
        system_request::<F>(y1) == system_request::<F>(y2) ==> y1 == y2,
{
}

fn clone_opt(o: &Option<String>) -> (r: Option<String>)
    ensures
        r == *o,
{
    match o {
        Some(s) => Some(s.clone()),
        None => None,
    }
}

fn stream_request_exec<F>(c: &StreamCmd) -> (r: Request<F>)
    ensures
        stream_request(*c, r),
{
    match c {
        StreamCmd::List => Request::StreamList,
        StreamCmd::Move { index, sink } => Request::StreamMove {
            stream: stream_ref(*index),
            sink: sink.clone(),
        },
        StreamCmd::Unassign { index } => Request::StreamUnassign { stream: stream_ref(*index) },
        StreamCmd::SetVolume { index, pct } => Request::StreamSetVolume {
            stream: stream_ref(*index),
            pct: *pct,
        },
        StreamCmd::SetMute { index, mute } => Request::StreamSetMute {
            stream: stream_ref(*index),
            mute: *mute,
        },
        StreamCmd::Icon { key } => Request::StreamIcon { key: key.clone() },
    }
}

fn sink_request_exec<F>(c: &SinkCmd) -> (r: Request<F>)
    ensures
        r == sink_request::<F>(*c),
{
    match c {
        SinkCmd::List => Request::SinkListCustom,
        SinkCmd::ListCustom => Request::SinkListCustom,
        SinkCmd::Create { name, display_name } => Request::SinkCreate {
            config: SinkConfig {
                name: name.clone(),
                display_name: match display_name {
                    Some(d) => d.clone(),
                    None => name.clone(),
                },
            },
        },
        SinkCmd::Delete { name } => Request::SinkDelete { name: name.clone() },
        SinkCmd::SetVolume { sink, pct } => Request::SinkSetVolume { sink: sink.clone(), pct: *pct },
        SinkCmd::Default => Request::SinkDefault,
        SinkCmd::Route { sink, device } => Request::SinkRouteToDevice {
            sink: sink.clone(),
            device: device.clone(),
        },
        SinkCmd::CurrentRoute { sink } => Request::SinkCurrentRoute { sink: sink.clone() },
        SinkCmd::Devices => Request::SinkListOutputDevices,
    }
}

fn link_exec<F>(source: &String, target: &String, link: bool) -> (r: Result<Request<F>, PwError>)
    ensures
        link_result(source@, target@, link, r),
{
    let s = parse_port(source.as_str())?;
    let t = parse_port(target.as_str())?;
    if link {
        Ok(Request::GraphLink { source: s, target: t })
    } else {
        Ok(Request::GraphUnlink { source: s, target: t })
    }
}

fn graph_request_exec<F>(c: &GraphCmd) -> (r: Result<Request<F>, PwError>)
    ensures
        graph_result(*c, r),
{
    match c {
        GraphCmd::Ports { node } => Ok(Request::GraphListNodePorts { node: node.clone() }),
        GraphCmd::Link { source, target } => link_exec(source, target, true),
        GraphCmd::Unlink { source, target } => link_exec(source, target, false),
    }
}

fn device_request_exec<F>(c: &DeviceCmd) -> (r: Result<Request<F>, PwError>)
    ensures
        device_result(*c, r),
{
    match c {
        DeviceCmd::List => Ok(Request::DeviceListSupported),
        DeviceCmd::Selected => Ok(Request::DeviceGetSelected),
        DeviceCmd::Select { id } => {
            let device = parse_device_id(id.as_str())?;
            Ok(Request::DeviceSetSelected { device })
        },
        DeviceCmd::ListUser => Ok(Request::DeviceListUser),
        DeviceCmd::AddUser { name, vendor_id, product_id, sink } => Ok(
            Request::DeviceAddUser {
                device: UserDevice {
                    name: name.clone(),
                    vendor_id: clone_opt(vendor_id),
                    product_id: clone_opt(product_id),
                    pipewire_sink: clone_opt(sink),
                },
            },
        ),
        DeviceCmd::RemoveUser { name } => Ok(Request::DeviceRemoveUser { name: name.clone() }),
    }
}

fn band<F: Copy>(freq: F, gain: F, q: F, filter: crate::cli::commands::Filter) -> (b: EqBand<F>)
    ensures
        b == band_spec(freq, gain, q, filter),
{
    EqBand { freq, gain_db: gain, q, filter_type: FilterType::from(filter), enabled: true }
}

fn eq_request_exec<F: Copy>(c: &EqCmd<F>) -> (r: Request<F>)
    ensures
        r == eq_request(*c),
{
    match c {
        EqCmd::Get => Request::EqGetState,
        EqCmd::Enable { chain } => Request::EqSetChainEnabled {
            chain: EqChainId::from(*chain),
            enabled: true,
        },
        EqCmd::Disable { chain } => Request::EqSetChainEnabled {
            chain: EqChainId::from(*chain),
            enabled: false,
        },
        EqCmd::SetBand { chain, index, freq, gain, q, filter } => Request::EqSetBand {
            chain: EqChainId::from(*chain),
            index: *index,
            band: band(*freq, *gain, *q, *filter),
        },
        EqCmd::AddBand { chain, freq, gain, q, filter } => Request::EqAddBand {
            chain: EqChainId::from(*chain),
            band: band(*freq, *gain, *q, *filter),
        },
        EqCmd::RemoveBand { chain, index } => Request::EqRemoveBand {
            chain: EqChainId::from(*chain),
            index: *index,
        },
        EqCmd::Preamp { chain, gain_db } => Request::EqSetPreamp {
            chain: EqChainId::from(*chain),
            preamp_db: *gain_db,
        },
        EqCmd::Presets => Request::EqListPresets,
        EqCmd::SavePreset { chain, name } => Request::EqSavePreset {
            name: name.clone(),
            chain: EqChainId::from(*chain),
        },
        EqCmd::ApplyPreset { chain, name } => Request::EqApplyPreset {
            name: name.clone(),
            chain: EqChainId::from(*chain),
        },
        EqCmd::DeletePreset { name } => Request::EqDeletePreset { name: name.clone() },
        EqCmd::ResetSafeMode => Request::EqResetSafeMode,
    }
}

/// The request `command` sends. `watch`, `teardown` and `completions` are
/// answered by the client itself and never reach here.
pub fn request<F: Copy>(command: &Command<F>) -> (r: Result<Request<F>, PwError>)
    requires
        !handled_before_dispatch(*command),
    ensures
        request_spec(*command, r),
{
    match command {
        Command::Status => Ok(Request::SessionSnapshot),
        Command::Stream(cmd) => Ok(stream_request_exec(cmd)),
        Command::Sink(cmd) => Ok(sink_request_exec(cmd)),
        Command::Graph(cmd) => graph_request_exec(cmd),
        Command::Device(cmd) => device_request_exec(cmd),
        Command::Chatmix(cmd) => Ok(
            match cmd {
                ChatmixCmd::Get => Request::SessionSnapshot,
                ChatmixCmd::SetValue { value } => Request::ChatmixSetManual { value: Some(*value) },
                ChatmixCmd::Auto => Request::ChatmixSetManual { value: None },
            },
        ),
        Command::Eq(cmd) => Ok(eq_request_exec(cmd)),
        Command::System(cmd) => Ok(
            match cmd {
                SystemCmd::Deps => Request::SystemCheckDeps,
                SystemCmd::Udev => Request::SystemCheckUdev,
                SystemCmd::InstallUdev => Request::SystemInstallUdev,
            },
        ),
        Command::Watch { .. } | Command::Teardown { .. } | Command::Completions { .. } => {
            proof {
                assert(false);
            }
            Ok(Request::SessionSnapshot)
        },
    }
}

/// Hello and subscribe belong to the session layer; the core never
/// dispatches them.
pub fn is_session_method<F>(request: &Request<F>) -> (r: bool)
    ensures
        r == (*request is SessionHello || *request is SessionSubscribe),
{
    match request {
        Request::SessionHello { .. } | Request::SessionSubscribe { .. } => true,
        _ => false,
    }
}

/// `chatmix get` asks for the snapshot and shows only its balance; every
/// other answer is shown as it came.
pub open spec fn shown_spec<F>(command: Command<F>, response: Response<F>) -> Response<F> {
    match (command, response) {
        (Command::Chatmix(ChatmixCmd::Get), Response::Snapshot(s)) => Response::ChatMix(s.chatmix),
        (_, other) => other,
    }
}

pub fn shown<F>(command: &Command<F>, response: Response<F>) -> (r: Response<F>)
    ensures
        r == shown_spec(*command, response),
{
    match (command, response) {
        (Command::Chatmix(ChatmixCmd::Get), Response::Snapshot(s)) => Response::ChatMix(s.chatmix),
        (_, other) => other,
    }
}

/// The events `watch` subscribes to: all of them unless some were named.
pub fn watch_events(events: Option<Vec<String>>) -> (r: Vec<String>)
    ensures
        match events {
            Some(v) => r == v,
            None => r@.len() == 1 && r@[0]@ == "*"@,
        },
{
    match events {
        Some(v) => v,
        None => vec![String::from_str("*")],
    }
}

pub open spec fn teardown_refusal() -> Seq<char> {
    "teardown drops every stream routed to the managed sinks; pass --confirm"@
}

/// Teardown drops every stream routed to the managed sinks, so it needs
/// `--confirm`.
pub fn teardown_check(confirm: bool) -> (r: Result<(), PwError>)
    ensures
        confirm ==> r is Ok,
        !confirm ==> (r matches Err(e) && e.kind == ErrorKind::BadRequest && e.msg@
            == teardown_refusal()),
{
    if !confirm {
        return Err(
            PwError::new(
                ErrorKind::BadRequest,
                String::from_str("teardown drops every stream routed to the managed sinks; pass --confirm"),
            ),
        );
    }
    Ok(())
}

/// The managed sinks a teardown deletes, from the answer to the listing; any
/// other answer is an internal error.
pub fn teardown_targets<F>(response: Response<F>) -> (r: Result<Vec<SinkInfo>, PwError>)
    ensures
        match response {
            Response::Sinks(v) => r == Ok::<Vec<SinkInfo>, PwError>(v),
            _ => r matches Err(e) && e.kind == ErrorKind::Internal && e.msg@
                == "unexpected response kind"@,
        },
{
    match response {
        Response::Sinks(v) => Ok(v),
        _ => Err(PwError::new(ErrorKind::Internal, String::from_str("unexpected response kind"))),
    }
}

/// The request that deletes one listed sink.
pub fn delete_request<F>(sink: &SinkInfo) -> (r: Request<F>)
    ensures
        r == (Request::<F>::SinkDelete { name: sink.name }),
{
    Request::SinkDelete { name: sink.name.clone() }
}

} // verus!
