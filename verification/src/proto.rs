//! Plain data shared by every layer: device identities, error kinds, the
//! managed sink names and the wire-protocol limits.

use vstd::prelude::*;
use vstd::string::*;

verus! {

/// A USB vendor/product pair.
#[derive(Clone, Copy, Debug, PartialEq, Eq, Hash, Structural)]
pub struct DeviceId {
    pub vendor_id: u16,
    pub product_id: u16,
}

/// The total order devices are enumerated in: vendor first, then product.
pub open spec fn id_key(d: DeviceId) -> int {
    d.vendor_id as int * 65536 + d.product_id as int
}

impl DeviceId {
    pub fn new(vendor_id: u16, product_id: u16) -> (d: DeviceId)
        ensures
            d.vendor_id == vendor_id,
            d.product_id == product_id,
    {
        DeviceId { vendor_id, product_id }
    }
}

/// Two ids share a key exactly when they are the same id.
pub proof fn lemma_id_key_injective(a: DeviceId, b: DeviceId)
    ensures
        (id_key(a) == id_key(b)) == (a == b),
{
}

/// Classification carried by every error that reaches a client.
#[derive(Clone, Copy, Debug, PartialEq, Eq, Structural)]
pub enum ErrorKind {
    BadRequest,
    NotFound,
    DeviceAbsent,
    PermissionDenied,
    PipeWireUnavailable,
    VersionMismatch,
    Internal,
}

/// What a headset model can do.
#[derive(Clone, Copy, Debug, PartialEq, Eq, Structural)]
pub enum Capability {
    Sidetone,
    MicrophoneVolume,
    ChatMixStatus,
    BatteryStatus,
}

/// Whether a known headset is plugged in, and whether it answers.
#[derive(Clone, Copy, Debug, PartialEq, Eq, Structural)]
pub enum DevicePresence {
    Connected,
    Absent,
    Faulted,
}

/// Battery as reported to clients.
#[derive(Clone, Copy, Debug, PartialEq, Eq, Structural)]
pub struct BatteryInfo {
    pub presence: DevicePresence,
    pub level: Option<u8>,
}

impl BatteryInfo {
    /// The report for a headset that is not there: absent, no level.
    pub fn absent() -> (b: BatteryInfo)
        ensures
            b.presence == DevicePresence::Absent,
            b.level.is_none(),
    {
        BatteryInfo { presence: DevicePresence::Absent, level: None }
    }
}

/// One supported model, as listed to clients.
#[derive(Clone, Debug, PartialEq, Eq)]
pub struct DeviceDescriptor {
    pub id: DeviceId,
    pub name: String,
    pub presence: DevicePresence,
    pub capabilities: Vec<Capability>,
}

/// A device the user described by hand.
#[derive(Clone, Debug, PartialEq, Eq)]
pub struct UserDevice {
    pub name: String,
    pub vendor_id: Option<String>,
    pub product_id: Option<String>,
    pub pipewire_sink: Option<String>,
}

/// Game/chat balance: 0 all chat, 100 all game.
#[derive(Clone, Copy, Debug, PartialEq, Eq, Structural)]
pub struct ChatMix {
    pub value: u8,
    pub manual: bool,
}

/// The two EQ filter chains.
#[derive(Clone, Copy, Debug, PartialEq, Eq, Hash, Structural)]
pub enum EqChainId {
    Game,
    Chat,
}

/// Every chain, in the order they are brought up.
pub fn all_chains() -> (v: Vec<EqChainId>)
    ensures
        v@ == seq![EqChainId::Game, EqChainId::Chat],
{
    vec![EqChainId::Game, EqChainId::Chat]
}

/// The shape of one EQ band's filter.
#[derive(Clone, Copy, Debug, PartialEq, Eq, Structural)]
pub enum FilterType {
    Peaking,
    LowShelf,
    HighShelf,
    LowPass,
    HighPass,
    Notch,
}

/// How a request names a playback stream: the daemon revalidates the index
/// against the application before acting on it.
#[derive(Clone, Debug, PartialEq, Eq)]
pub struct StreamRef {
    pub index: u32,
    pub app_name: String,
    pub pid: Option<u32>,
}

/// One port of a graph node; `id` is the graph's own id where known.
#[derive(Clone, Debug, PartialEq, Eq)]
pub struct PortRef {
    pub node_name: String,
    pub port_name: String,
    pub id: Option<u32>,
}

/// What a port reference says: node name, port name, id.
pub open spec fn port_view(p: PortRef) -> (Seq<char>, Seq<char>, Option<u32>) {
    (p.node_name@, p.port_name@, p.id)
}

/// A link from an output port to an input port.
#[derive(Clone, Debug, PartialEq, Eq)]
pub struct Link {
    pub source: PortRef,
    pub target: PortRef,
}

/// One EQ band. The numeric fields are carried as `F`: this crate never
/// computes with them.
#[derive(Clone, Copy, Debug, PartialEq)]
pub struct EqBand<F> {
    pub freq: F,
    pub gain_db: F,
    pub q: F,
    pub filter_type: FilterType,
    pub enabled: bool,
}

/// A virtual sink to create.
#[derive(Clone, Debug, PartialEq, Eq)]
pub struct SinkConfig {
    pub name: String,
    pub display_name: String,
}

/// One protocol method with its parameters; `F` carries the EQ's numbers.
#[derive(Clone, Debug, PartialEq)]
#[allow(inconsistent_fields)]
pub enum Request<F> {
    SessionHello { client: String, proto: u32 },
    SessionSubscribe { events: Vec<String> },
    SessionSnapshot,
    StreamList,
    StreamMove { stream: StreamRef, sink: String },
    StreamUnassign { stream: StreamRef },
    StreamSetVolume { stream: StreamRef, pct: u8 },
    StreamSetMute { stream: StreamRef, mute: bool },
    StreamIcon { key: String },
    SinkCreate { config: SinkConfig },
    SinkDelete { name: String },
    SinkListCustom,
    SinkSetVolume { sink: String, pct: u8 },
    SinkDefault,
    SinkCurrentRoute { sink: String },
    SinkRouteToDevice { sink: String, device: String },
    SinkListOutputDevices,
    GraphListNodePorts { node: String },
    GraphLink { source: PortRef, target: PortRef },
    GraphUnlink { source: PortRef, target: PortRef },
    DeviceListSupported,
    DeviceGetSelected,
    DeviceSetSelected { device: Option<DeviceId> },
    DeviceListUser,
    DeviceAddUser { device: UserDevice },
    DeviceRemoveUser { name: String },
    ChatmixSetManual { value: Option<u8> },
    EqGetState,
    EqSetChainEnabled { chain: EqChainId, enabled: bool },
    EqSetBand { chain: EqChainId, index: u8, band: EqBand<F> },
    EqAddBand { chain: EqChainId, band: EqBand<F> },
    EqRemoveBand { chain: EqChainId, index: u8 },
    EqSetPreamp { chain: EqChainId, preamp_db: F },
    EqListPresets,
    EqSavePreset { name: String, chain: EqChainId },
    EqApplyPreset { name: String, chain: EqChainId },
    EqDeletePreset { name: String },
    EqResetSafeMode,
    SystemCheckDeps,
    SystemCheckUdev,
    SystemInstallUdev,
}

/// What a successful hello answers: the daemon's version and the protocol
/// range it speaks.
#[derive(Debug, PartialEq, Eq)]
pub struct HelloReply {
    pub daemon: String,
    pub proto: (u32, u32),
    pub caps: Vec<String>,
}

/// A sink as listed.
#[derive(Clone, Debug, PartialEq, Eq)]
pub struct SinkInfo {
    pub name: String,
    pub volume: u8,
    pub is_muted: bool,
    pub managed: bool,
}

/// A playback stream as listed.
#[derive(Clone, Debug, PartialEq, Eq)]
pub struct StreamInfo {
    pub stream: StreamRef,
    pub name: String,
    pub sink: String,
    pub volume: u8,
    pub is_muted: bool,
}

/// Where a sink is routed.
#[derive(Clone, Debug, PartialEq, Eq)]
pub struct RouteInfo {
    pub sink: String,
    pub device: String,
    pub description: String,
}

/// A hardware output a sink can be routed to.
#[derive(Clone, Debug, PartialEq, Eq)]
pub struct OutputDevice {
    pub name: String,
    pub description: String,
}

#[derive(Clone, Copy, Debug, PartialEq, Eq, Structural)]
pub enum PortDirection {
    Input,
    Output,
}

/// A port of a graph node as listed.
#[derive(Clone, Debug, PartialEq, Eq)]
pub struct PortInfo {
    pub id: u32,
    pub node_name: String,
    pub port_name: String,
    pub direction: PortDirection,
}

/// One EQ chain: on or off, its preamp and its bands.
#[derive(Clone, Debug, PartialEq)]
pub struct EqChain<F> {
    pub enabled: bool,
    pub preamp_db: F,
    pub bands: Vec<EqBand<F>>,
}

/// The chains by id, and whether safe mode bypasses them. A valid state
/// lists each id at most once (`chains_unique`).
#[derive(Clone, Debug, PartialEq)]
pub struct EqState<F> {
    pub safe_mode: bool,
    pub chains: Vec<(EqChainId, EqChain<F>)>,
}

/// No id is listed twice.
pub open spec fn chains_unique<F>(cs: Seq<(EqChainId, EqChain<F>)>) -> bool {
    forall|i: int, j: int| 0 <= i < j < cs.len() ==> #[trigger] cs[i].0 != #[trigger] cs[j].0
}

/// Whether `id` is listed.
pub open spec fn has_chain<F>(cs: Seq<(EqChainId, EqChain<F>)>, id: EqChainId) -> bool {
    exists|i: int| 0 <= i < cs.len() && #[trigger] cs[i].0 == id
}

impl<F> EqState<F> {
    /// A state with no chain listed yet.
    pub fn new(safe_mode: bool) -> (s: EqState<F>)
        ensures
            s.safe_mode == safe_mode,
            s.chains@.len() == 0,
            chains_unique(s.chains@),
    {
        EqState { safe_mode, chains: Vec::new() }
    }

    /// Sets the chain for `id`: the listed one is replaced in place, else
    /// the chain is added at the end. No id is ever listed twice.
    pub fn insert_chain(&mut self, id: EqChainId, chain: EqChain<F>)
        requires
            chains_unique(old(self).chains@),
        ensures
            chains_unique(final(self).chains@),
            final(self).safe_mode == old(self).safe_mode,
            has_chain(old(self).chains@, id) ==> exists|i: int|
                0 <= i < old(self).chains@.len() && #[trigger] old(self).chains@[i].0 == id
                    && final(self).chains@ == old(self).chains@.update(i, (id, chain)),
            !has_chain(old(self).chains@, id) ==> final(self).chains@ == old(self).chains@.push(
                (id, chain),
            ),
    {
        let n = self.chains.len();
        let mut i: usize = 0;
        while i < n
            invariant
                n == self.chains@.len(),
                self.chains@ == old(self).chains@,
                self.safe_mode == old(self).safe_mode,
                chains_unique(old(self).chains@),
                i <= n,
                forall|k: int| 0 <= k < i ==> #[trigger] self.chains@[k].0 != id,
            decreases n - i,
        {
            if self.chains[i].0 == id {
                let ghost before = self.chains@;
                self.chains.set(i, (id, chain));
                assert(before[i as int].0 == id);
                assert forall|a: int, b: int| 0 <= a < b < self.chains@.len() implies #[trigger] self.chains@[a].0
                    != #[trigger] self.chains@[b].0 by {
                    assert(before[a].0 != before[b].0);
                }
                return;
            }
            i = i + 1;
        }
        let ghost before = self.chains@;
        self.chains.push((id, chain));
        assert forall|a: int, b: int| 0 <= a < b < self.chains@.len() implies #[trigger] self.chains@[a].0
            != #[trigger] self.chains@[b].0 by {
            if b < before.len() {
                assert(before[a].0 != before[b].0);
            } else {
                assert(before[a].0 != id);
            }
        }
    }
}

/// The whole daemon state in one answer.
#[derive(Clone, Debug, PartialEq)]
pub struct Snapshot<F> {
    pub default_sink: String,
    pub chatmix: ChatMix,
    pub eq: EqState<F>,
    pub sinks: Vec<SinkInfo>,
    pub streams: Vec<StreamInfo>,
    pub devices: Vec<DeviceDescriptor>,
    pub selected_device: Option<DeviceId>,
    pub user_devices: Vec<UserDevice>,
}

/// Which external tools and libraries were found.
#[derive(Clone, Copy, Debug, PartialEq, Eq, Structural)]
pub struct SystemDeps {
    pub pipewire: bool,
    pub pactl: bool,
    pub pw_link: bool,
    pub libhidapi: bool,
}

/// Whether the udev rule is installed, and the command that would install it.
#[derive(Clone, Debug, PartialEq, Eq)]
pub struct UdevStatus {
    pub installed: bool,
    pub install_command: Option<Vec<String>>,
}

/// A preset as listed.
#[derive(Clone, Debug, PartialEq, Eq)]
pub struct EqPresetMeta {
    pub name: String,
    pub builtin: bool,
}

/// The answer to a request; `F` carries the EQ's numbers.
#[derive(Debug, PartialEq)]
pub enum Response<F> {
    Empty,
    Hello(HelloReply),
    Snapshot(Snapshot<F>),
    Streams(Vec<StreamInfo>),
    Sinks(Vec<SinkInfo>),
    SinkName(String),
    Route(Option<RouteInfo>),
    OutputDevices(Vec<OutputDevice>),
    Ports(Vec<PortInfo>),
    Links(Vec<Link>),
    Devices(Vec<DeviceDescriptor>),
    SelectedDevice(Option<DeviceId>),
    UserDevices(Vec<UserDevice>),
    ChatMix(ChatMix),
    EqState(EqState<F>),
    EqPresets(Vec<EqPresetMeta>),
    SystemDeps(SystemDeps),
    UdevStatus(UdevStatus),
    Icon(Option<String>),
}

/// Virtual sink that carries game audio.
pub const GAME_SINK: &'static str = "game_sink";

/// Virtual sink that carries voice-chat audio.
pub const CHAT_SINK: &'static str = "chat_sink";

/// Largest request line the daemon accepts, in bytes.
pub const MAX_FRAME_BYTES: usize = 1048576;

/// Oldest and newest protocol versions this build speaks.
pub const PROTO_MIN: u32 = 1;

pub const PROTO_MAX: u32 = 1;

/// The version a client announces in its hello.
pub const PROTO_VERSION: u32 = 1;

/// Whether a peer speaking `v` can be served.
#[verifier::allow_in_spec]
pub fn version_supported(v: u32) -> bool
    returns
        PROTO_MIN <= v && v <= PROTO_MAX,
{
    PROTO_MIN <= v && v <= PROTO_MAX
}

} // verus!

verus! {

/// A USB id as four hex digits in either case, and nothing else.
pub open spec fn valid_hex_id(s: Seq<char>) -> bool {
    s.len() == 4 && forall|i: int| 0 <= i < 4 ==> #[trigger] crate::text::is_hex_char(s[i])
}

/// Whether `s` is exactly four hex digits.
pub fn is_valid_hex_id(s: &str) -> (r: bool)
    ensures
        r == valid_hex_id(s@),
{
    if s.unicode_len() != 4 {
        return false;
    }
    let mut i: usize = 0;
    while i < 4
        invariant
            s@.len() == 4,
            i <= 4,
            forall|j: int| 0 <= j < i ==> #[trigger] crate::text::is_hex_char(s@[j]),
        decreases 4 - i,
    {
        if !crate::text::hex_char(s.get_char(i)) {
            return false;
        }
        i = i + 1;
    }
    true
}

} // verus!

verus! {

/// Whether a client may try again later with the same request: the graph
/// or the headset may come back; anything else fails the same way again.
pub open spec fn retryable_spec(kind: ErrorKind) -> bool {
    kind == ErrorKind::PipeWireUnavailable || kind == ErrorKind::DeviceAbsent
}

/// The exit status the command-line client ends with for each kind.
pub open spec fn exit_code_spec(kind: ErrorKind) -> u8 {
    match kind {
        ErrorKind::Internal => 1,
        ErrorKind::PipeWireUnavailable => 2,
        ErrorKind::VersionMismatch => 3,
        ErrorKind::BadRequest => 4,
        ErrorKind::NotFound => 5,
        ErrorKind::DeviceAbsent => 6,
        ErrorKind::PermissionDenied => 7,
    }
}

impl ErrorKind {
    pub fn exit_code(&self) -> (r: u8)
        ensures
            r == exit_code_spec(*self),
    {
        match self {
            ErrorKind::Internal => 1,
            ErrorKind::PipeWireUnavailable => 2,
            ErrorKind::VersionMismatch => 3,
            ErrorKind::BadRequest => 4,
            ErrorKind::NotFound => 5,
            ErrorKind::DeviceAbsent => 6,
            ErrorKind::PermissionDenied => 7,
        }
    }

    pub fn retryable(&self) -> (r: bool)
        ensures
            r == retryable_spec(*self),
    {
        match self {
            ErrorKind::PipeWireUnavailable | ErrorKind::DeviceAbsent => true,
            _ => false,
        }
    }
}

/// An error as it reaches a client: a kind, a message, whether retrying may
/// help, and, for a version mismatch, the protocol range the sender speaks.
#[derive(Debug, Clone, PartialEq, Eq)]
pub struct PwError {
    pub kind: ErrorKind,
    pub msg: String,
    pub retryable: bool,
    pub supported: Option<(u32, u32)>,
}

/// The fields of an error, the message as characters.
pub open spec fn wire_view(e: PwError) -> (ErrorKind, Seq<char>, bool, Option<(u32, u32)>) {
    (e.kind, e.msg@, e.retryable, e.supported)
}

/// The message of a version mismatch.
pub open spec fn version_mismatch_message(supported: (u32, u32)) -> Seq<char> {
    "unsupported protocol version; supported: "@ + crate::text::decimal(supported.0 as nat) + ".."@
        + crate::text::decimal(supported.1 as nat)
}

impl PwError {
    /// An error of `kind`; it is retryable exactly when its kind is.
    pub fn new(kind: ErrorKind, msg: String) -> (e: PwError)
        ensures
            e.kind == kind,
            e.msg@ == msg@,
            e.retryable == retryable_spec(kind),
            e.supported is None,
    {
        let retryable = kind.retryable();
        PwError { kind, msg, retryable, supported: None }
    }

    /// The refusal of a peer whose protocol version is outside `supported`,
    /// the range the refusing side speaks.
    pub fn version_mismatch(supported: (u32, u32)) -> (e: PwError)
        ensures
            e.kind == ErrorKind::VersionMismatch,
            e.msg@ == version_mismatch_message(supported),
            !e.retryable,
            e.supported == Some(supported),
    {
        let mut m = String::from_str("unsupported protocol version; supported: ");
        crate::text::push_decimal(&mut m, supported.0 as u64);
        m.append("..");
        crate::text::push_decimal(&mut m, supported.1 as u64);
        PwError { kind: ErrorKind::VersionMismatch, msg: m, retryable: false, supported: Some(supported) }
    }
}

} // verus!
