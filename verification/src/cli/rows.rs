//! One line per listed item, laid out in fixed-width columns as `format!`
//! pads them: text left-aligned, numbers right-aligned, widths counted in
//! characters.

use crate::cli::render::{port, port_text, truncate, truncate_spec};
use crate::proto::{
    port_view, DeviceDescriptor, DeviceId, DevicePresence, EqChainId, EqPresetMeta, FilterType,
    Link, OutputDevice, PortDirection, PortInfo, SinkInfo, StreamInfo, UserDevice,
};
use crate::text::{decimal, hex4, push_char, push_decimal, push_hex4};
use vstd::prelude::*;
use vstd::string::*;

verus! {

pub open spec fn spaces(n: nat) -> Seq<char> {
    Seq::new(n, |i: int| ' ')
}

/// `s` followed by spaces up to `width` characters.
pub open spec fn pad_right(s: Seq<char>, width: nat) -> Seq<char> {
    if s.len() < width {
        s + spaces((width - s.len()) as nat)
    } else {
        s
    }
}

/// Spaces up to `width` characters, then `s`.
pub open spec fn pad_left(s: Seq<char>, width: nat) -> Seq<char> {
    if s.len() < width {
        spaces((width - s.len()) as nat) + s
    } else {
        s
    }
}

/// `s` when `b` holds, else nothing.
pub open spec fn if_set(b: bool, s: Seq<char>) -> Seq<char> {
    if b {
        s
    } else {
        Seq::empty()
    }
}

pub open spec fn presence_name(p: DevicePresence) -> Seq<char> {
    match p {
        DevicePresence::Connected => "Connected"@,
        DevicePresence::Absent => "Absent"@,
        DevicePresence::Faulted => "Faulted"@,
    }
}

pub open spec fn direction_name(d: PortDirection) -> Seq<char> {
    match d {
        PortDirection::Input => "Input"@,
        PortDirection::Output => "Output"@,
    }
}

pub open spec fn chain_name(c: EqChainId) -> Seq<char> {
    match c {
        EqChainId::Game => "Game"@,
        EqChainId::Chat => "Chat"@,
    }
}

pub open spec fn filter_name(f: FilterType) -> Seq<char> {
    match f {
        FilterType::Peaking => "Peaking"@,
        FilterType::LowShelf => "LowShelf"@,
        FilterType::HighShelf => "HighShelf"@,
        FilterType::LowPass => "LowPass"@,
        FilterType::HighPass => "HighPass"@,
        FilterType::Notch => "Notch"@,
    }
}

/// Appends `n` spaces.
pub fn push_spaces(out: &mut String, n: usize)
    ensures
        final(out)@ == old(out)@ + spaces(n as nat),
{
    let mut i: usize = 0;
    while i < n
        invariant
            i <= n,
            out@ == old(out)@ + spaces(i as nat),
        decreases n - i,
    {
        push_char(out, ' ');
        assert(out@ =~= old(out)@ + spaces((i + 1) as nat));
        i = i + 1;
    }
}

/// Appends `s` padded on the right to `width` characters.
pub fn push_left_aligned(out: &mut String, s: &str, width: usize)
    ensures
        final(out)@ == old(out)@ + pad_right(s@, width as nat),
{
    let n = s.unicode_len();
    out.append(s);
    if n < width {
        push_spaces(out, width - n);
    }
    assert(out@ =~= old(out)@ + pad_right(s@, width as nat));
}

/// Appends `s` padded on the left to `width` characters.
pub fn push_right_aligned(out: &mut String, s: &str, width: usize)
    ensures
        final(out)@ == old(out)@ + pad_left(s@, width as nat),
{
    let n = s.unicode_len();
    if n < width {
        push_spaces(out, width - n);
    }
    out.append(s);
    assert(out@ =~= old(out)@ + pad_left(s@, width as nat));
}

/// The decimal digits of `v`.
pub fn decimal_string(v: u64) -> (r: String)
    ensures
        r@ == decimal(v as nat),
{
    let mut s = String::new();
    push_decimal(&mut s, v);
    assert(s@ =~= decimal(v as nat));
    s
}

pub fn push_if_set(out: &mut String, b: bool, s: &str)
    ensures
        final(out)@ == old(out)@ + if_set(b, s@),
{
    if b {
        out.append(s);
    } else {
        assert(old(out)@ + if_set(b, s@) =~= old(out)@);
    }
}

fn presence_text(p: DevicePresence) -> (r: &'static str)
    ensures
        r@ == presence_name(p),
{
    match p {
        DevicePresence::Connected => "Connected",
        DevicePresence::Absent => "Absent",
        DevicePresence::Faulted => "Faulted",
    }
}

fn direction_text(d: PortDirection) -> (r: &'static str)
    ensures
        r@ == direction_name(d),
{
    match d {
        PortDirection::Input => "Input",
        PortDirection::Output => "Output",
    }
}

pub fn chain_text(c: EqChainId) -> (r: &'static str)
    ensures
        r@ == chain_name(c),
{
    match c {
        EqChainId::Game => "Game",
        EqChainId::Chat => "Chat",
    }
}

pub fn filter_text(f: FilterType) -> (r: &'static str)
    ensures
        r@ == filter_name(f),
{
    match f {
        FilterType::Peaking => "Peaking",
        FilterType::LowShelf => "LowShelf",
        FilterType::HighShelf => "HighShelf",
        FilterType::LowPass => "LowPass",
        FilterType::HighPass => "HighPass",
        FilterType::Notch => "Notch",
    }
}

/// `name  vol%`, with ` muted` and ` [managed]` marks; `indent` prefixes
/// two spaces, as inside a snapshot.
pub open spec fn sink_row(s: SinkInfo, indent: bool) -> Seq<char> {
    if_set(indent, "  "@) + pad_right(s.name@, 28) + " "@ + pad_left(decimal(s.volume as nat), 3) + "%"@
        + if_set(s.is_muted, " muted"@) + if_set(s.managed, " [managed]"@)
}

pub fn sink_line(s: &SinkInfo, indent: bool) -> (r: String)
    ensures
        r@ == sink_row(*s, indent),
{
    let mut out = String::new();
    push_if_set(&mut out, indent, "  ");
    push_left_aligned(&mut out, s.name.as_str(), 28);
    out.append(" ");
    push_right_aligned(&mut out, decimal_string(s.volume as u64).as_str(), 3);
    out.append("%");
    push_if_set(&mut out, s.is_muted, " muted");
    push_if_set(&mut out, s.managed, " [managed]");
    proof {
        reveal_strlit("  ");
        reveal_strlit(" muted");
        reveal_strlit(" [managed]");
    }
    assert(out@ =~= sink_row(*s, indent));
    out
}

/// `index name -> sink vol%`: a snapshot indents it and gives the name 24
/// columns, a stream listing gives it 28; long cells are truncated.
pub open spec fn stream_row(s: StreamInfo, indent: bool, name_width: nat) -> Seq<char> {
    if_set(indent, "  "@) + pad_right(decimal(s.stream.index as nat), 5) + " "@ + pad_right(
        truncate_spec(s.name@, name_width),
        name_width,
    ) + " -> "@ + pad_right(truncate_spec(s.sink@, 20), 20) + " "@ + pad_left(
        decimal(s.volume as nat),
        3,
    ) + "%"@ + if_set(s.is_muted, " muted"@)
}

pub fn stream_line(s: &StreamInfo, indent: bool, name_width: usize) -> (r: String)
    ensures
        r@ == stream_row(*s, indent, name_width as nat),
{
    let mut out = String::new();
    push_if_set(&mut out, indent, "  ");
    push_left_aligned(&mut out, decimal_string(s.stream.index as u64).as_str(), 5);
    out.append(" ");
    push_left_aligned(&mut out, truncate(s.name.as_str(), name_width).as_str(), name_width);
    out.append(" -> ");
    push_left_aligned(&mut out, truncate(s.sink.as_str(), 20).as_str(), 20);
    out.append(" ");
    push_right_aligned(&mut out, decimal_string(s.volume as u64).as_str(), 3);
    out.append("%");
    push_if_set(&mut out, s.is_muted, " muted");
    assert(out@ =~= stream_row(*s, indent, name_width as nat));
    out
}

/// `vvvv:pppp name presence`, and ` [selected]` on the selected device; a
/// snapshot indents it.
pub open spec fn device_row(d: DeviceDescriptor, indent: bool, selected: Option<DeviceId>) -> Seq<
    char,
> {
    if_set(indent, "  "@) + hex4(d.id.vendor_id) + ":"@ + hex4(d.id.product_id) + " "@ + pad_right(
        d.name@,
        28,
    ) + " "@ + presence_name(d.presence) + if_set(selected == Some(d.id), " [selected]"@)
}

pub fn device_line(d: &DeviceDescriptor, indent: bool, selected: Option<DeviceId>) -> (r: String)
    ensures
        r@ == device_row(*d, indent, selected),
{
    let mut out = String::new();
    push_if_set(&mut out, indent, "  ");
    push_hex4(&mut out, d.id.vendor_id);
    out.append(":");
    push_hex4(&mut out, d.id.product_id);
    out.append(" ");
    push_left_aligned(&mut out, d.name.as_str(), 28);
    out.append(" ");
    out.append(presence_text(d.presence));
    let is_selected = match selected {
        Some(id) => id.vendor_id == d.id.vendor_id && id.product_id == d.id.product_id,
        None => false,
    };
    push_if_set(&mut out, is_selected, " [selected]");
    assert(out@ =~= device_row(*d, indent, selected));
    out
}

pub open spec fn output_row(d: OutputDevice) -> Seq<char> {
    pad_right(d.name@, 40) + " "@ + d.description@
}

pub fn output_line(d: &OutputDevice) -> (r: String)
    ensures
        r@ == output_row(*d),
{
    let mut out = String::new();
    push_left_aligned(&mut out, d.name.as_str(), 40);
    out.append(" ");
    out.append(d.description.as_str());
    assert(out@ =~= output_row(*d));
    out
}

pub open spec fn port_row(p: PortInfo) -> Seq<char> {
    pad_right(decimal(p.id as nat), 6) + " "@ + pad_right(p.node_name@, 32) + " "@ + pad_right(
        p.port_name@,
        12,
    ) + " "@ + direction_name(p.direction)
}

pub fn port_line(p: &PortInfo) -> (r: String)
    ensures
        r@ == port_row(*p),
{
    let mut out = String::new();
    push_left_aligned(&mut out, decimal_string(p.id as u64).as_str(), 6);
    out.append(" ");
    push_left_aligned(&mut out, p.node_name.as_str(), 32);
    out.append(" ");
    push_left_aligned(&mut out, p.port_name.as_str(), 12);
    out.append(" ");
    out.append(direction_text(p.direction));
    assert(out@ =~= port_row(*p));
    out
}

pub open spec fn link_row(l: Link) -> Seq<char> {
    port_text(port_view(l.source)) + " -> "@ + port_text(port_view(l.target))
}

pub fn link_line(l: &Link) -> (r: String)
    ensures
        r@ == link_row(*l),
{
    let mut out = port(&l.source);
    out.append(" -> ");
    let t = port(&l.target);
    out.append(t.as_str());
    assert(out@ =~= link_row(*l));
    out
}

pub open spec fn or_dash(o: Option<String>) -> Seq<char> {
    match o {
        Some(s) => s@,
        None => "-"@,
    }
}

pub open spec fn user_row(d: UserDevice) -> Seq<char> {
    pad_right(d.name@, 24) + " "@ + or_dash(d.vendor_id) + ":"@ + or_dash(d.product_id)
}

fn push_or_dash(out: &mut String, o: &Option<String>)
    ensures
        final(out)@ == old(out)@ + or_dash(*o),
{
    match o {
        Some(s) => out.append(s.as_str()),
        None => out.append("-"),
    }
}

pub fn user_line(d: &UserDevice) -> (r: String)
    ensures
        r@ == user_row(*d),
{
    let mut out = String::new();
    push_left_aligned(&mut out, d.name.as_str(), 24);
    out.append(" ");
    push_or_dash(&mut out, &d.vendor_id);
    out.append(":");
    push_or_dash(&mut out, &d.product_id);
    assert(out@ =~= user_row(*d));
    out
}

pub open spec fn preset_row(p: EqPresetMeta) -> Seq<char> {
    pad_right(p.name@, 20) + if_set(p.builtin, " [builtin]"@)
}

pub fn preset_line(p: &EqPresetMeta) -> (r: String)
    ensures
        r@ == preset_row(*p),
{
    let mut out = String::new();
    push_left_aligned(&mut out, p.name.as_str(), 20);
    push_if_set(&mut out, p.builtin, " [builtin]");
    assert(out@ =~= preset_row(*p));
    out
}

} // verus!
