//! The command surface of the command-line client, one subcommand per
//! protocol method, and the parsing of the arguments that carry structure:
//! `node:port` and `vendor:product`.

use crate::hid::error::ascii_lower;
use crate::proto::{port_view, DeviceId, EqChainId, ErrorKind, FilterType, PortRef, PwError, StreamRef};
use crate::text::{debug_quote, debug_quoted, has_prefix, hex_value, is_hex_char, starts_with};
use vstd::prelude::*;
use vstd::string::*;

verus! {

#[derive(Debug, Clone, PartialEq, Eq)]
pub enum StreamCmd {
    List,
    Move { index: u32, sink: String },
    Unassign { index: u32 },
    SetVolume { index: u32, pct: u8 },
    SetMute { index: u32, mute: bool },
    Icon { key: String },
}

#[derive(Debug, Clone, PartialEq, Eq)]
pub enum SinkCmd {
    List,
    ListCustom,
    Create { name: String, display_name: Option<String> },
    Delete { name: String },
    SetVolume { sink: String, pct: u8 },
    Default,
    Route { sink: String, device: String },
    CurrentRoute { sink: String },
    Devices,
}

#[derive(Debug, Clone, PartialEq, Eq)]
pub enum GraphCmd {
    Ports { node: String },
    Link { source: String, target: String },
    Unlink { source: String, target: String },
}

#[derive(Debug, Clone, PartialEq, Eq)]
pub enum DeviceCmd {
    List,
    Selected,
    /// `vendor:product` in hex, or `none` to clear.
    Select { id: String },
    ListUser,
    AddUser {
        name: String,
        vendor_id: Option<String>,
        product_id: Option<String>,
        sink: Option<String>,
    },
    RemoveUser { name: String },
}

#[derive(Debug, Clone, Copy, PartialEq, Eq, Structural)]
pub enum ChatmixCmd {
    Get,
    /// Pin the balance: 0 all chat, 100 all game.
    SetValue { value: u8 },
    /// Hand control back to the headset wheel.
    Auto,
}

#[derive(Debug, Clone, Copy, PartialEq, Eq, Structural)]
pub enum SystemCmd {
    Deps,
    Udev,
    /// Print the command that installs the udev rule; never run it.
    InstallUdev,
}

#[derive(Debug, Clone, Copy, PartialEq, Eq, Structural)]
pub enum Chain {
    Game,
    Chat,
}

#[derive(Debug, Clone, Copy, PartialEq, Eq, Structural)]
pub enum Filter {
    Peaking,
    LowShelf,
    HighShelf,
    LowPass,
    HighPass,
    Notch,
}

#[derive(Debug, Clone, Copy, PartialEq, Eq, Structural)]
pub enum Shell {
    Bash,
    Zsh,
    Fish,
}

/// The equalizer's subcommands; `F` carries the band numbers as typed.
#[derive(Debug, Clone, PartialEq)]
#[allow(inconsistent_fields)]
pub enum EqCmd<F> {
    Get,
    Enable { chain: Chain },
    Disable { chain: Chain },
    SetBand { chain: Chain, index: u8, freq: F, gain: F, q: F, filter: Filter },
    AddBand { chain: Chain, freq: F, gain: F, q: F, filter: Filter },
    RemoveBand { chain: Chain, index: u8 },
    Preamp { chain: Chain, gain_db: F },
    Presets,
    SavePreset { chain: Chain, name: String },
    ApplyPreset { chain: Chain, name: String },
    DeletePreset { name: String },
    /// Clear safe mode and retry the filter chain.
    ResetSafeMode,
}

/// Every subcommand of the client.
#[derive(Debug, Clone, PartialEq)]
pub enum Command<F> {
    /// Full daemon state.
    Status,
    Stream(StreamCmd),
    Sink(SinkCmd),
    Graph(GraphCmd),
    Device(DeviceCmd),
    Chatmix(ChatmixCmd),
    Eq(EqCmd<F>),
    System(SystemCmd),
    /// Stream events until interrupted; `None` means all of them.
    Watch { events: Option<Vec<String>> },
    /// Remove every sink the daemon manages; `confirm` is required.
    Teardown { confirm: bool },
    /// Print a shell completion script.
    Completions { shell: Shell },
}

pub open spec fn chain_id_spec(c: Chain) -> EqChainId {
    match c {
        Chain::Game => EqChainId::Game,
        Chain::Chat => EqChainId::Chat,
    }
}

impl From<Chain> for EqChainId {
    fn from(c: Chain) -> (r: EqChainId) {
        match c {
            Chain::Game => EqChainId::Game,
            Chain::Chat => EqChainId::Chat,
        }
    }
}

impl vstd::std_specs::convert::FromSpecImpl<Chain> for EqChainId {
    open spec fn obeys_from_spec() -> bool {
        true
    }

    open spec fn from_spec(v: Chain) -> EqChainId {
        chain_id_spec(v)
    }
}

pub open spec fn filter_type_spec(f: Filter) -> FilterType {
    match f {
        Filter::Peaking => FilterType::Peaking,
        Filter::LowShelf => FilterType::LowShelf,
        Filter::HighShelf => FilterType::HighShelf,
        Filter::LowPass => FilterType::LowPass,
        Filter::HighPass => FilterType::HighPass,
        Filter::Notch => FilterType::Notch,
    }
}

impl From<Filter> for FilterType {
    fn from(f: Filter) -> (r: FilterType) {
        match f {
            Filter::Peaking => FilterType::Peaking,
            Filter::LowShelf => FilterType::LowShelf,
            Filter::HighShelf => FilterType::HighShelf,
            Filter::LowPass => FilterType::LowPass,
            Filter::HighPass => FilterType::HighPass,
            Filter::Notch => FilterType::Notch,
        }
    }
}

impl vstd::std_specs::convert::FromSpecImpl<Filter> for FilterType {
    open spec fn obeys_from_spec() -> bool {
        true
    }

    open spec fn from_spec(v: Filter) -> FilterType {
        filter_type_spec(v)
    }
}

/// A stream addressed by index alone: the daemon revalidates before acting,
/// so that is enough from a shell.
pub fn stream_ref(index: u32) -> (r: StreamRef)
    ensures
        r.index == index,
        r.app_name@ == Seq::<char>::empty(),
        r.pid is None,
{
    StreamRef { index, app_name: String::new(), pid: None }
}

/// Where the first `c` in `s` stands.
pub open spec fn index_of(s: Seq<char>, c: char) -> Option<int>
    decreases s.len(),
{
    if s.len() == 0 {
        None
    } else if s[0] == c {
        Some(0)
    } else {
        match index_of(s.drop_first(), c) {
            Some(i) => Some(i + 1),
            None => None,
        }
    }
}

/// `s` split around its first `c`, as `str::split_once` does.
pub open spec fn split_once_spec(s: Seq<char>, c: char) -> Option<(Seq<char>, Seq<char>)> {
    match index_of(s, c) {
        Some(i) => Some((s.take(i), s.skip(i + 1))),
        None => None,
    }
}

proof fn lemma_index_of_first(s: Seq<char>, c: char, i: int)
    requires
        0 <= i < s.len(),
        s[i] == c,
        forall|j: int| 0 <= j < i ==> s[j] != c,
    ensures
        index_of(s, c) == Some(i),
    decreases i,
{
    if i > 0 {
        assert forall|j: int| 0 <= j < i - 1 implies s.drop_first()[j] != c by {
            assert(s.drop_first()[j] == s[j + 1]);
        }
        lemma_index_of_first(s.drop_first(), c, i - 1);
    }
}

proof fn lemma_index_of_none(s: Seq<char>, c: char)
    requires
        forall|j: int| 0 <= j < s.len() ==> s[j] != c,
    ensures
        index_of(s, c) is None,
    decreases s.len(),
{
    if s.len() > 0 {
        assert forall|j: int| 0 <= j < s.len() - 1 implies s.drop_first()[j] != c by {
            assert(s.drop_first()[j] == s[j + 1]);
        }
        lemma_index_of_none(s.drop_first(), c);
    }
}

fn split_once<'a>(s: &'a str, c: char) -> (r: Option<(&'a str, &'a str)>)
    ensures
        match r {
            Some((a, b)) => split_once_spec(s@, c) == Some((a@, b@)),
            None => split_once_spec(s@, c) is None,
        },
{
    let n = s.unicode_len();
    let mut i: usize = 0;
    while i < n
        invariant
            n == s@.len(),
            i <= n,
            forall|j: int| 0 <= j < i ==> s@[j] != c,
        decreases n - i,
    {
        if s.get_char(i) == c {
            proof {
                lemma_index_of_first(s@, c, i as int);
            }
            let a = s.substring_char(0, i);
            let b = s.substring_char(i + 1, n);
            assert(a@ =~= s@.take(i as int));
            assert(b@ =~= s@.skip(i as int + 1));
            return Some((a, b));
        }
        i = i + 1;
    }
    proof {
        lemma_index_of_none(s@, c);
    }
    None
}

pub open spec fn port_error_message(spec: Seq<char>) -> Seq<char> {
    "expected node:port, got "@ + debug_quoted(spec)
}

/// `node:port`, split at the first colon.
pub fn parse_port(spec: &str) -> (r: Result<PortRef, PwError>)
    ensures
        match split_once_spec(spec@, ':') {
            Some((node, port)) => r matches Ok(p) && port_view(p) == (node, port, None::<u32>),
            None => r matches Err(e) && e.kind == ErrorKind::BadRequest && e.msg@
                == port_error_message(spec@),
        },
{
    match split_once(spec, ':') {
        Some((node, port)) => Ok(
            PortRef {
                node_name: String::from_str(node),
                port_name: String::from_str(port),
                id: None,
            },
        ),
        None => {
            let mut m = String::from_str("expected node:port, got ");
            let q = debug_quote(spec);
            m.append(q.as_str());
            Err(PwError::new(ErrorKind::BadRequest, m))
        },
    }
}

/// `s` without any run of leading `0x`, as `trim_start_matches("0x")`.
pub open spec fn trim_0x(s: Seq<char>) -> Seq<char>
    decreases s.len(),
{
    if s.len() >= 2 && s[0] == '0' && s[1] == 'x' {
        trim_0x(s.skip(2))
    } else {
        s
    }
}

/// The value of a run of hex digits, most significant first.
pub open spec fn hex_digits_value(d: Seq<char>) -> int
    decreases d.len(),
{
    if d.len() == 0 {
        0
    } else {
        hex_digits_value(d.drop_last()) * 16 + hex_value(d.last())
    }
}

/// `s` without one leading `+`.
pub open spec fn strip_plus(s: Seq<char>) -> Seq<char> {
    if s.len() > 0 && s[0] == '+' {
        s.drop_first()
    } else {
        s
    }
}

/// At least one hex digit of either case, with a value that fits.
pub open spec fn hex_digits_u16(d: Seq<char>) -> Option<u16> {
    if d.len() > 0 && (forall|i: int| 0 <= i < d.len() ==> #[trigger] is_hex_char(d[i]))
        && hex_digits_value(d) <= 0xffff {
        Some(hex_digits_value(d) as u16)
    } else {
        None
    }
}

/// What `u16::from_str_radix(s, 16)` gives: an optional `+`, then at least
/// one hex digit of either case, and a value that fits.
pub open spec fn parse_hex_u16_spec(s: Seq<char>) -> Option<u16> {
    hex_digits_u16(strip_plus(s))
}

/// Whether `s` is `none` in any case.
pub open spec fn is_none_word(s: Seq<char>) -> bool {
    s.len() == 4 && ascii_lower(s[0]) == 'n' && ascii_lower(s[1]) == 'o' && ascii_lower(s[2]) == 'n'
        && ascii_lower(s[3]) == 'e'
}

/// What `vendor:product` names: both halves, stripped of `0x`, as hex.
pub open spec fn device_id_spec(spec: Seq<char>) -> Option<DeviceId> {
    match split_once_spec(spec, ':') {
        Some((v, p)) => match (parse_hex_u16_spec(trim_0x(v)), parse_hex_u16_spec(trim_0x(p))) {
            (Some(vendor_id), Some(product_id)) => Some(DeviceId { vendor_id, product_id }),
            _ => None,
        },
        None => None,
    }
}

pub open spec fn device_id_error_message(spec: Seq<char>) -> Seq<char> {
    "expected vendor:product in hex, got "@ + debug_quoted(spec)
}

fn trim_leading_0x<'a>(s: &'a str) -> (r: &'a str)
    ensures
        r@ == trim_0x(s@),
    decreases s@.len(),
{
    proof {
        reveal_strlit("0x");
    }
    if starts_with(s, "0x") {
        let n = s.unicode_len();
        let rest = s.substring_char(2, n);
        assert(rest@ =~= s@.skip(2));
        assert(s@[0] == s@.take(2)[0] && s@[1] == s@.take(2)[1]);
        trim_leading_0x(rest)
    } else {
        proof {
            if s@.len() >= 2 && s@[0] == '0' && s@[1] == 'x' {
                assert(s@.take(2) =~= "0x"@);
            }
        }
        s
    }
}

proof fn lemma_hex_value_grows(d: Seq<char>, i: int)
    requires
        0 <= i <= d.len(),
        forall|k: int| 0 <= k < d.len() ==> #[trigger] is_hex_char(d[k]),
    ensures
        hex_digits_value(d.take(i)) <= hex_digits_value(d),
        0 <= hex_digits_value(d.take(i)),
    decreases d.len() - i,
{
    if i < d.len() {
        lemma_hex_value_grows(d, i + 1);
        assert(d.take(i + 1).drop_last() =~= d.take(i));
        assert(d.take(i + 1).last() == d[i]);
        assert(is_hex_char(d[i]));
    } else {
        assert(d.take(i) =~= d);
    }
    lemma_hex_value_nonneg(d.take(i));
}

proof fn lemma_hex_value_nonneg(d: Seq<char>)
    requires
        forall|k: int| 0 <= k < d.len() ==> #[trigger] is_hex_char(d[k]),
    ensures
        0 <= hex_digits_value(d),
    decreases d.len(),
{
    if d.len() > 0 {
        assert forall|k: int| 0 <= k < d.drop_last().len() implies #[trigger] is_hex_char(
            d.drop_last()[k],
        ) by {
            assert(d.drop_last()[k] == d[k]);
        }
        lemma_hex_value_nonneg(d.drop_last());
        assert(is_hex_char(d[d.len() - 1]));
    }
}

fn hex_digit_value(c: char) -> (v: u32)
    requires
        is_hex_char(c),
    ensures
        v == hex_value(c),
{
    if '0' <= c && c <= '9' {
        (c as u32) - ('0' as u32)
    } else if 'a' <= c && c <= 'f' {
        (c as u32) - ('a' as u32) + 10
    } else {
        (c as u32) - ('A' as u32) + 10
    }
}

/// `u16::from_str_radix(s, 16)`, as a value or nothing.
fn parse_hex_u16(s: &str) -> (r: Option<u16>)
    ensures
        r == parse_hex_u16_spec(s@),
{
    let n = s.unicode_len();
    let start: usize = if n > 0 && s.get_char(0) == '+' {
        1
    } else {
        0
    };
    let ghost d = strip_plus(s@);
    assert(d =~= s@.skip(start as int));
    if start == n {
        return None;
    }
    let mut acc: u32 = 0;
    let mut i: usize = start;
    while i < n
        invariant
            n == s@.len(),
            start <= i <= n,
            d == s@.skip(start as int),
            d == strip_plus(s@),
            d.len() > 0,
            forall|k: int| 0 <= k < i - start ==> #[trigger] is_hex_char(d[k]),
            acc == hex_digits_value(d.take(i - start)),
            acc <= 0xffff,
        decreases n - i,
    {
        let c = s.get_char(i);
        assert(d[i - start] == c);
        if !crate::text::hex_char(c) {
            assert(!is_hex_char(d[i - start]));
            return None;
        }
        let v = hex_digit_value(c);
        assert(d.take(i - start + 1).drop_last() =~= d.take(i - start));
        assert(d.take(i - start + 1).last() == c);
        let next: u32 = acc * 16 + v;
        if next > 0xffff {
            assert(hex_digits_value(d.take(i - start + 1)) == next);
            proof {
                if forall|k: int| 0 <= k < d.len() ==> #[trigger] is_hex_char(d[k]) {
                    lemma_hex_value_grows(d, i - start + 1);
                }
            }
            return None;
        }
        acc = next;
        i = i + 1;
    }
    assert(d.take(n - start) =~= d);
    Some(acc as u16)
}

fn none_word(s: &str) -> (r: bool)
    ensures
        r == is_none_word(s@),
{
    if s.unicode_len() != 4 {
        return false;
    }
    let a = s.get_char(0);
    let b = s.get_char(1);
    let c = s.get_char(2);
    let d = s.get_char(3);
    (a == 'n' || a == 'N') && (b == 'o' || b == 'O') && (c == 'n' || c == 'N') && (d == 'e' || d
        == 'E')
}

fn device_id_error(spec: &str) -> (e: PwError)
    ensures
        e.kind == ErrorKind::BadRequest,
        e.msg@ == device_id_error_message(spec@),
{
    let mut m = String::from_str("expected vendor:product in hex, got ");
    let q = debug_quote(spec);
    m.append(q.as_str());
    PwError::new(ErrorKind::BadRequest, m)
}

/// `vendor:product` in hex (`0x` prefixes allowed), or `none` in any case
/// to clear the selection.
pub fn parse_device_id(spec: &str) -> (r: Result<Option<DeviceId>, PwError>)
    ensures
        is_none_word(spec@) ==> r == Ok::<Option<DeviceId>, PwError>(None),
        !is_none_word(spec@) ==> match device_id_spec(spec@) {
            Some(id) => r == Ok::<Option<DeviceId>, PwError>(Some(id)),
            None => r matches Err(e) && e.kind == ErrorKind::BadRequest && e.msg@
                == device_id_error_message(spec@),
        },
{
    if none_word(spec) {
        return Ok(None);
    }
    let (v, p) = match split_once(spec, ':') {
        Some(parts) => parts,
        None => {
            return Err(device_id_error(spec));
        },
    };
    let vendor = match parse_hex_u16(trim_leading_0x(v)) {
        Some(x) => x,
        None => {
            return Err(device_id_error(spec));
        },
    };
    let product = match parse_hex_u16(trim_leading_0x(p)) {
        Some(x) => x,
        None => {
            return Err(device_id_error(spec));
        },
    };
    Ok(Some(DeviceId::new(vendor, product)))
}

proof fn lemma_index_of_facts(s: Seq<char>, c: char)
    ensures
        index_of(s, c) matches Some(i) ==> 0 <= i < s.len() && s[i] == c && forall|j: int|
            0 <= j < i ==> s[j] != c,
        index_of(s, c) is None ==> forall|j: int| 0 <= j < s.len() ==> s[j] != c,
    decreases s.len(),
{
    if s.len() > 0 && s[0] != c {
        lemma_index_of_facts(s.drop_first(), c);
        if index_of(s.drop_first(), c) is None {
            assert forall|j: int| 0 <= j < s.len() implies s[j] != c by {
                if j > 0 {
                    assert(s[j] == s.drop_first()[j - 1]);
                }
            }
        } else {
            let i = index_of(s.drop_first(), c)->0;
            assert forall|j: int| 0 <= j < i + 1 implies s[j] != c by {
                if j > 0 {
                    assert(s[j] == s.drop_first()[j - 1]);
                }
            }
        }
    }
}

/// A `node:port` argument splits into the parts it is made of: joining them
/// back with the colon gives the argument again.
pub proof fn lemma_port_round_trip(spec: Seq<char>)
    requires
        split_once_spec(spec, ':') is Some,
    ensures
        ({
            let (node, port) = split_once_spec(spec, ':')->0;
            node + seq![':'] + port == spec && !node.contains(':')
        }),
{
    lemma_index_of_facts(spec, ':');
    let i = index_of(spec, ':')->0;
    assert(spec.take(i) + seq![':'] + spec.skip(i + 1) =~= spec);
    if spec.take(i).contains(':') {
        let k = choose|k: int| 0 <= k < spec.take(i).len() && spec.take(i)[k] == ':';
        assert(spec[k] == ':');
    }
}

/// Four hex digits read back as the number they were written from.
pub proof fn lemma_hex4_value(v: u16)
    ensures
        hex_digits_value(crate::text::hex4(v)) == v,
        forall|i: int| 0 <= i < 4 ==> #[trigger] is_hex_char(crate::text::hex4(v)[i]),
{
    let h = crate::text::hex4(v);
    let a = (v / 4096) as int;
    let b = ((v / 256) % 16) as int;
    let c = ((v / 16) % 16) as int;
    let d = (v % 16) as int;
    assert(0 <= a < 16 && 0 <= b < 16 && 0 <= c < 16 && 0 <= d < 16);
    lemma_hex_digit_round_trip(a);
    lemma_hex_digit_round_trip(b);
    lemma_hex_digit_round_trip(c);
    lemma_hex_digit_round_trip(d);
    assert(h.drop_last().drop_last().drop_last().drop_last() =~= Seq::<char>::empty());
    assert(h.drop_last().drop_last().drop_last() =~= seq![h[0]]);
    assert(h.drop_last().drop_last() =~= seq![h[0], h[1]]);
    assert(h.drop_last() =~= seq![h[0], h[1], h[2]]);
    assert(h[0] == crate::text::hex_digit_spec(a));
    assert(h[1] == crate::text::hex_digit_spec(b));
    assert(h[2] == crate::text::hex_digit_spec(c));
    assert(h[3] == crate::text::hex_digit_spec(d));
    assert(hex_digits_value(Seq::<char>::empty()) == 0);
    assert(hex_digits_value(seq![h[0]]) == a) by {
        assert(seq![h[0]].drop_last() =~= Seq::<char>::empty());
        assert(seq![h[0]].last() == h[0]);
    }
    assert(hex_digits_value(seq![h[0], h[1]]) == a * 16 + b) by {
        assert(seq![h[0], h[1]].drop_last() =~= seq![h[0]]);
    }
    assert(hex_digits_value(seq![h[0], h[1], h[2]]) == (a * 16 + b) * 16 + c) by {
        assert(seq![h[0], h[1], h[2]].drop_last() =~= seq![h[0], h[1]]);
    }
    assert(hex_digits_value(h) == ((a * 16 + b) * 16 + c) * 16 + d);
    assert(((a * 16 + b) * 16 + c) * 16 + d == v) by (nonlinear_arith)
        requires
            a == v / 4096,
            b == (v / 256) % 16,
            c == (v / 16) % 16,
            d == v % 16,
            0 <= v < 65536,
    ;
}

proof fn lemma_hex_digit_round_trip(k: int)
    requires
        0 <= k < 16,
    ensures
        is_hex_char(crate::text::hex_digit_spec(k)),
        hex_value(crate::text::hex_digit_spec(k)) == k,
{
}

/// A device id as the client prints it, `vvvv:pppp`, is read back by
/// `device select` as the same id.
pub proof fn lemma_device_id_round_trip(id: DeviceId)
    ensures
        !is_none_word(crate::text::hex4(id.vendor_id) + seq![':'] + crate::text::hex4(id.product_id)),
        device_id_spec(crate::text::hex4(id.vendor_id) + seq![':'] + crate::text::hex4(id.product_id))
            == Some(id),
{
    let hv = crate::text::hex4(id.vendor_id);
    let hp = crate::text::hex4(id.product_id);
    let s = hv + seq![':'] + hp;
    lemma_hex4_value(id.vendor_id);
    lemma_hex4_value(id.product_id);
    assert(s[4] == ':');
    assert forall|j: int| 0 <= j < 4 implies s[j] != ':' by {
        assert(s[j] == hv[j]);
        assert(is_hex_char(hv[j]));
    }
    lemma_index_of_first(s, ':', 4);
    assert(s.take(4) =~= hv);
    assert(s.skip(5) =~= hp);
    assert(is_hex_char(hv[1]));
    assert(is_hex_char(hp[1]));
    assert(trim_0x(hv) == hv);
    assert(trim_0x(hp) == hp);
    assert(is_hex_char(hv[0]));
    assert(is_hex_char(hp[0]));
    assert(strip_plus(hv) == hv);
    assert(strip_plus(hp) == hp);
}

} // verus!
