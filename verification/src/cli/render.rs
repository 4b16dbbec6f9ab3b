//! Laying answers out for a person: lists one item per line, presence marks,
//! cell truncation, port names and shell quoting.

use crate::cli::rows::{
    chain_name, chain_text, decimal_string, device_line, device_row, filter_name, filter_text,
    link_line, link_row, output_line, output_row, pad_left, port_line, port_row, preset_line,
    preset_row, push_right_aligned, push_if_set, sink_line, sink_row, stream_line, stream_row,
    user_line, user_row, if_set,
};
use crate::proto::{
    port_view, DeviceDescriptor, DeviceId, EqBand, EqChain, EqChainId, EqPresetMeta, EqState, Link,
    OutputDevice, PortInfo, PortRef, Response, SinkInfo, Snapshot, StreamInfo, SystemDeps,
    UdevStatus, UserDevice,
};
use crate::text::{decimal, has_prefix, push_char, push_decimal};
use vstd::prelude::*;
use vstd::string::*;

verus! {

/// `parts` joined with `sep` between neighbours.
pub open spec fn join_spec(parts: Seq<Seq<char>>, sep: Seq<char>) -> Seq<char>
    decreases parts.len(),
{
    if parts.len() == 0 {
        Seq::empty()
    } else if parts.len() == 1 {
        parts[0]
    } else {
        join_spec(parts.drop_last(), sep) + sep + parts.last()
    }
}

pub open spec fn strings_view(v: Seq<String>) -> Seq<Seq<char>> {
    v.map_values(|s: String| s@)
}

/// Joins `parts` with `sep`, as `[String]::join` does.
pub fn join(parts: &Vec<String>, sep: &str) -> (r: String)
    ensures
        r@ == join_spec(strings_view(parts@), sep@),
{
    let ghost v = strings_view(parts@);
    let mut out = String::new();
    let n = parts.len();
    let mut i: usize = 0;
    while i < n
        invariant
            n == parts@.len(),
            v == strings_view(parts@),
            i <= n,
            out@ == join_spec(v.take(i as int), sep@),
        decreases n - i,
    {
        assert(v.take(i as int + 1).drop_last() =~= v.take(i as int));
        assert(v.take(i as int + 1).last() == parts@[i as int]@);
        if i > 0 {
            out.append(sep);
        } else {
            assert(out@ =~= Seq::<char>::empty());
        }
        out.append(parts[i].as_str());
        i = i + 1;
    }
    assert(v.take(n as int) =~= v);
    out
}

pub open spec fn lines_spec(items: Seq<Seq<char>>) -> Seq<char> {
    if items.len() == 0 {
        "(none)"@
    } else {
        join_spec(items, "\n"@)
    }
}

/// One item per line, or `(none)` for an empty list.
pub fn lines(items: &Vec<String>) -> (r: String)
    ensures
        r@ == lines_spec(strings_view(items@)),
{
    if items.len() == 0 {
        return String::from_str("(none)");
    }
    join(items, "\n")
}

/// How a dependency check reads.
pub fn mark(present: bool) -> (r: &'static str)
    ensures
        r@ == if present {
            "found"@
        } else {
            "MISSING"@
        },
{
    if present {
        "found"
    } else {
        "MISSING"
    }
}

/// At most `width` characters: a longer `s` keeps its first `width - 1`
/// (none when `width` is zero) and ends in an ellipsis.
pub open spec fn truncate_spec(s: Seq<char>, width: nat) -> Seq<char> {
    if s.len() <= width {
        s
    } else {
        s.take(if width == 0 {
            0
        } else {
            width - 1
        }) + seq!['\u{2026}']
    }
}

pub fn truncate(s: &str, width: usize) -> (r: String)
    ensures
        r@ == truncate_spec(s@, width as nat),
{
    let n = s.unicode_len();
    if n <= width {
        return String::from_str(s);
    }
    let keep = if width == 0 {
        0
    } else {
        width - 1
    };
    let mut out = String::from_str(s.substring_char(0, keep));
    push_char(&mut out, '\u{2026}');
    assert(out@ =~= truncate_spec(s@, width as nat));
    out
}

/// How a port reads: `node:port`, with its id when the graph gave one.
pub open spec fn port_text(p: (Seq<char>, Seq<char>, Option<u32>)) -> Seq<char> {
    match p.2 {
        Some(id) => p.0 + ":"@ + p.1 + " (#"@ + decimal(id as nat) + ")"@,
        None => p.0 + ":"@ + p.1,
    }
}

pub fn port(p: &PortRef) -> (r: String)
    ensures
        r@ == port_text(port_view(*p)),
{
    let mut out = String::from_str(p.node_name.as_str());
    out.append(":");
    out.append(p.port_name.as_str());
    match p.id {
        Some(id) => {
            out.append(" (#");
            push_decimal(&mut out, id as u64);
            out.append(")");
        },
        None => {},
    }
    out
}

/// A character that needs no quoting in a shell word.
pub open spec fn is_shell_safe(c: char) -> bool {
    ||| ('a' <= c && c <= 'z')
    ||| ('A' <= c && c <= 'Z')
    ||| ('0' <= c && c <= '9')
    ||| c == '-'
    ||| c == '_'
    ||| c == '/'
    ||| c == '.'
    ||| c == '='
    ||| c == ':'
}

/// `s` with every `'` written as `'\''`.
pub open spec fn escape_quotes(s: Seq<char>) -> Seq<char>
    decreases s.len(),
{
    if s.len() == 0 {
        Seq::empty()
    } else {
        escape_quotes(s.drop_last()) + if s.last() == '\'' {
            seq!['\'', '\\', '\'', '\'']
        } else {
            seq![s.last()]
        }
    }
}

/// One argument as a shell reads it back: bare when every character is
/// safe, else in single quotes.
pub open spec fn shell_word(a: Seq<char>) -> Seq<char> {
    if forall|i: int| 0 <= i < a.len() ==> #[trigger] is_shell_safe(a[i]) {
        a
    } else {
        seq!['\''] + escape_quotes(a) + seq!['\'']
    }
}

pub open spec fn shell_words(argv: Seq<Seq<char>>) -> Seq<Seq<char>> {
    argv.map_values(|a: Seq<char>| shell_word(a))
}

fn shell_safe(c: char) -> (r: bool)
    ensures
        r == is_shell_safe(c),
{
    ('a' <= c && c <= 'z') || ('A' <= c && c <= 'Z') || ('0' <= c && c <= '9') || c == '-' || c
        == '_' || c == '/' || c == '.' || c == '=' || c == ':'
}

fn quote_word(a: &str) -> (r: String)
    ensures
        r@ == shell_word(a@),
{
    let n = a.unicode_len();
    let mut safe = true;
    let mut i: usize = 0;
    while i < n
        invariant
            n == a@.len(),
            i <= n,
            safe == forall|k: int| 0 <= k < i ==> #[trigger] is_shell_safe(a@[k]),
        decreases n - i,
    {
        let c = a.get_char(i);
        if !shell_safe(c) {
            safe = false;
        }
        i = i + 1;
    }
    if safe {
        return String::from_str(a);
    }
    let mut out = String::new();
    push_char(&mut out, '\'');
    let mut j: usize = 0;
    while j < n
        invariant
            n == a@.len(),
            j <= n,
            out@ == seq!['\''] + escape_quotes(a@.take(j as int)),
        decreases n - j,
    {
        let c = a.get_char(j);
        assert(a@.take(j as int + 1).drop_last() =~= a@.take(j as int));
        assert(a@.take(j as int + 1).last() == c);
        if c == '\'' {
            push_char(&mut out, '\'');
            push_char(&mut out, '\\');
            push_char(&mut out, '\'');
            push_char(&mut out, '\'');
        } else {
            push_char(&mut out, c);
        }
        assert(out@ =~= seq!['\''] + escape_quotes(a@.take(j as int + 1)));
        j = j + 1;
    }
    assert(a@.take(n as int) =~= a@);
    push_char(&mut out, '\'');
    out
}

/// A command line a person can paste back into a shell, words separated by
/// single spaces, matching how the daemon wrote it.
pub fn shell_join(argv: &Vec<String>) -> (r: String)
    ensures
        r@ == join_spec(shell_words(strings_view(argv@)), " "@),
{
    let mut words: Vec<String> = Vec::new();
    let n = argv.len();
    let mut i: usize = 0;
    while i < n
        invariant
            n == argv@.len(),
            i <= n,
            strings_view(words@) == shell_words(strings_view(argv@)).take(i as int),
        decreases n - i,
    {
        let w = quote_word(argv[i].as_str());
        let ghost before = words@;
        let ghost wv = w@;
        assert(strings_view(words@).len() == words@.len());
        assert(words@.len() == i);
        assert(strings_view(argv@)[i as int] == argv@[i as int]@);
        assert(shell_words(strings_view(argv@))[i as int] == shell_word(argv@[i as int]@));
        words.push(w);
        assert(words@ == before.push(w));
        assert(words@[i as int]@ == wv);
        assert(strings_view(words@)[i as int] == wv);
        assert(strings_view(words@) =~= shell_words(strings_view(argv@)).take(i as int + 1));
        i = i + 1;
    }
    assert(shell_words(strings_view(argv@)).take(n as int) =~= shell_words(strings_view(argv@)));
    join(&words, " ")
}

fn push_line(out: &mut Vec<String>, line: String)
    ensures
        strings_view(final(out)@) == strings_view(old(out)@).push(line@),
{
    let ghost before = out@;
    let ghost l = line@;
    out.push(line);
    assert(strings_view(out@) =~= strings_view(before).push(l));
}

fn push_all(out: &mut Vec<String>, mut more: Vec<String>)
    ensures
        strings_view(final(out)@) == strings_view(old(out)@) + strings_view(more@),
{
    let ghost a = out@;
    let ghost b = more@;
    out.append(&mut more);
    assert(strings_view(out@) =~= strings_view(a) + strings_view(b));
}

pub open spec fn sink_rows(v: Seq<SinkInfo>, indent: bool) -> Seq<Seq<char>> {
    v.map_values(|s: SinkInfo| sink_row(s, indent))
}

fn sink_lines(v: &Vec<SinkInfo>, indent: bool) -> (r: Vec<String>)
    ensures
        strings_view(r@) == sink_rows(v@, indent),
{
    let mut out: Vec<String> = Vec::new();
    let mut i: usize = 0;
    while i < v.len()
        invariant
            i <= v@.len(),
            strings_view(out@) == sink_rows(v@, indent).take(i as int),
        decreases v@.len() - i,
    {
        push_line(&mut out, sink_line(&v[i], indent));
        assert(strings_view(out@) =~= sink_rows(v@, indent).take(i as int + 1));
        i = i + 1;
    }
    assert(sink_rows(v@, indent).take(v@.len() as int) =~= sink_rows(v@, indent));
    out
}

pub open spec fn stream_rows(v: Seq<StreamInfo>, indent: bool, width: nat) -> Seq<Seq<char>> {
    v.map_values(|s: StreamInfo| stream_row(s, indent, width))
}

fn stream_lines(v: &Vec<StreamInfo>, indent: bool, width: usize) -> (r: Vec<String>)
    ensures
        strings_view(r@) == stream_rows(v@, indent, width as nat),
{
    let mut out: Vec<String> = Vec::new();
    let mut i: usize = 0;
    while i < v.len()
        invariant
            i <= v@.len(),
            strings_view(out@) == stream_rows(v@, indent, width as nat).take(i as int),
        decreases v@.len() - i,
    {
        push_line(&mut out, stream_line(&v[i], indent, width));
        assert(strings_view(out@) =~= stream_rows(v@, indent, width as nat).take(i as int + 1));
        i = i + 1;
    }
    assert(stream_rows(v@, indent, width as nat).take(v@.len() as int) =~= stream_rows(
        v@,
        indent,
        width as nat,
    ));
    out
}

pub open spec fn device_rows(v: Seq<DeviceDescriptor>, indent: bool, selected: Option<DeviceId>) -> Seq<
    Seq<char>,
> {
    v.map_values(|d: DeviceDescriptor| device_row(d, indent, selected))
}

fn device_lines(v: &Vec<DeviceDescriptor>, indent: bool, selected: Option<DeviceId>) -> (r: Vec<
    String,
>)
    ensures
        strings_view(r@) == device_rows(v@, indent, selected),
{
    let mut out: Vec<String> = Vec::new();
    let mut i: usize = 0;
    while i < v.len()
        invariant
            i <= v@.len(),
            strings_view(out@) == device_rows(v@, indent, selected).take(i as int),
        decreases v@.len() - i,
    {
        push_line(&mut out, device_line(&v[i], indent, selected));
        assert(strings_view(out@) =~= device_rows(v@, indent, selected).take(i as int + 1));
        i = i + 1;
    }
    assert(device_rows(v@, indent, selected).take(v@.len() as int) =~= device_rows(
        v@,
        indent,
        selected,
    ));
    out
}

pub open spec fn output_rows(v: Seq<OutputDevice>) -> Seq<Seq<char>> {
    v.map_values(|d: OutputDevice| output_row(d))
}

fn output_lines(v: &Vec<OutputDevice>) -> (r: Vec<String>)
    ensures
        strings_view(r@) == output_rows(v@),
{
    let mut out: Vec<String> = Vec::new();
    let mut i: usize = 0;
    while i < v.len()
        invariant
            i <= v@.len(),
            strings_view(out@) == output_rows(v@).take(i as int),
        decreases v@.len() - i,
    {
        push_line(&mut out, output_line(&v[i]));
        assert(strings_view(out@) =~= output_rows(v@).take(i as int + 1));
        i = i + 1;
    }
    assert(output_rows(v@).take(v@.len() as int) =~= output_rows(v@));
    out
}

pub open spec fn port_rows(v: Seq<PortInfo>) -> Seq<Seq<char>> {
    v.map_values(|p: PortInfo| port_row(p))
}

fn port_lines(v: &Vec<PortInfo>) -> (r: Vec<String>)
    ensures
        strings_view(r@) == port_rows(v@),
{
    let mut out: Vec<String> = Vec::new();
    let mut i: usize = 0;
    while i < v.len()
        invariant
            i <= v@.len(),
            strings_view(out@) == port_rows(v@).take(i as int),
        decreases v@.len() - i,
    {
        push_line(&mut out, port_line(&v[i]));
        assert(strings_view(out@) =~= port_rows(v@).take(i as int + 1));
        i = i + 1;
    }
    assert(port_rows(v@).take(v@.len() as int) =~= port_rows(v@));
    out
}

pub open spec fn link_rows(v: Seq<Link>) -> Seq<Seq<char>> {
    v.map_values(|l: Link| link_row(l))
}

fn link_lines(v: &Vec<Link>) -> (r: Vec<String>)
    ensures
        strings_view(r@) == link_rows(v@),
{
    let mut out: Vec<String> = Vec::new();
    let mut i: usize = 0;
    while i < v.len()
        invariant
            i <= v@.len(),
            strings_view(out@) == link_rows(v@).take(i as int),
        decreases v@.len() - i,
    {
        push_line(&mut out, link_line(&v[i]));
        assert(strings_view(out@) =~= link_rows(v@).take(i as int + 1));
        i = i + 1;
    }
    assert(link_rows(v@).take(v@.len() as int) =~= link_rows(v@));
    out
}

pub open spec fn user_rows(v: Seq<UserDevice>) -> Seq<Seq<char>> {
    v.map_values(|d: UserDevice| user_row(d))
}

fn user_lines(v: &Vec<UserDevice>) -> (r: Vec<String>)
    ensures
        strings_view(r@) == user_rows(v@),
{
    let mut out: Vec<String> = Vec::new();
    let mut i: usize = 0;
    while i < v.len()
        invariant
            i <= v@.len(),
            strings_view(out@) == user_rows(v@).take(i as int),
        decreases v@.len() - i,
    {
        push_line(&mut out, user_line(&v[i]));
        assert(strings_view(out@) =~= user_rows(v@).take(i as int + 1));
        i = i + 1;
    }
    assert(user_rows(v@).take(v@.len() as int) =~= user_rows(v@));
    out
}

pub open spec fn preset_rows(v: Seq<EqPresetMeta>) -> Seq<Seq<char>> {
    v.map_values(|p: EqPresetMeta| preset_row(p))
}

fn preset_lines(v: &Vec<EqPresetMeta>) -> (r: Vec<String>)
    ensures
        strings_view(r@) == preset_rows(v@),
{
    let mut out: Vec<String> = Vec::new();
    let mut i: usize = 0;
    while i < v.len()
        invariant
            i <= v@.len(),
            strings_view(out@) == preset_rows(v@).take(i as int),
        decreases v@.len() - i,
    {
        push_line(&mut out, preset_line(&v[i]));
        assert(strings_view(out@) =~= preset_rows(v@).take(i as int + 1));
        i = i + 1;
    }
    assert(preset_rows(v@).take(v@.len() as int) =~= preset_rows(v@));
    out
}

pub open spec fn mode_name(manual: bool) -> Seq<char> {
    if manual {
        "manual"@
    } else {
        "wheel"@
    }
}

/// The snapshot, section by section: header, sinks, streams, devices.
pub open spec fn snapshot_lines(s: Snapshot<String>) -> Seq<Seq<char>> {
    seq![
        "default sink: "@ + s.default_sink@,
        "chatmix: "@ + decimal(s.chatmix.value as nat) + " ("@ + mode_name(s.chatmix.manual) + ")"@,
        "eq: "@ + (if s.eq.safe_mode {
            "safe mode"@
        } else {
            "active"@
        }),
        Seq::<char>::empty(),
        "sinks ("@ + decimal(s.sinks@.len()) + ")"@,
    ] + sink_rows(s.sinks@, true) + seq![
        Seq::<char>::empty(),
        "streams ("@ + decimal(s.streams@.len()) + ")"@,
    ] + stream_rows(s.streams@, true, 24) + seq![
        Seq::<char>::empty(),
        "devices ("@ + decimal(s.devices@.len()) + ")"@,
    ] + device_rows(s.devices@, true, s.selected_device)
}

/// `[ i] freq Hz gain dB  Q q  Filter`, the numbers as already written.
pub open spec fn band_row(i: nat, b: EqBand<String>) -> Seq<char> {
    "  ["@ + pad_left(decimal(i), 2) + "] "@ + b.freq@ + " Hz "@ + b.gain_db@ + " dB  Q "@ + b.q@
        + "  "@ + filter_name(b.filter_type) + if_set(!b.enabled, " (off)"@)
}

pub open spec fn band_rows(bands: Seq<EqBand<String>>) -> Seq<Seq<char>> {
    Seq::new(bands.len(), |i: int| band_row(i as nat, bands[i]))
}

pub open spec fn chain_header(id: EqChainId, c: EqChain<String>) -> Seq<char> {
    chain_name(id) + ": "@ + (if c.enabled {
        "on "@
    } else {
        "off"@
    }) + " preamp "@ + c.preamp_db@ + " dB, "@ + decimal(c.bands@.len()) + " bands"@
}

/// The chains listed under `id`, each as its header and its bands.
pub open spec fn chain_lines(cs: Seq<(EqChainId, EqChain<String>)>, id: EqChainId) -> Seq<Seq<char>>
    decreases cs.len(),
{
    if cs.len() == 0 {
        Seq::empty()
    } else {
        chain_lines(cs.drop_last(), id) + (if cs.last().0 == id {
            seq![chain_header(cs.last().0, cs.last().1)] + band_rows(cs.last().1.bands@)
        } else {
            Seq::empty()
        })
    }
}

/// The EQ state: the safe-mode banner, then the chains by name, `Chat`
/// before `Game`, each in the order given.
pub open spec fn eq_lines(st: EqState<String>) -> Seq<Seq<char>> {
    (if st.safe_mode {
        seq!["safe mode: the filter chain is bypassed"@]
    } else {
        Seq::<Seq<char>>::empty()
    }) + chain_lines(st.chains@, EqChainId::Chat) + chain_lines(st.chains@, EqChainId::Game)
}

pub open spec fn udev_lines(st: UdevStatus) -> Seq<Seq<char>> {
    seq!["udev rule missing or outdated; run:"@, Seq::<char>::empty()] + (match st.install_command {
        Some(cmd) => seq!["    "@ + join_spec(shell_words(strings_view(cmd@)), " "@)],
        None => Seq::<Seq<char>>::empty(),
    })
}

pub open spec fn hex_id(id: DeviceId) -> Seq<char> {
    crate::text::hex4(id.vendor_id) + ":"@ + crate::text::hex4(id.product_id)
}

/// What a person reads for each answer. The EQ's numbers arrive already
/// written out (`F` is text here): formatting them is the caller's part.
pub open spec fn render_spec(r: Response<String>) -> Seq<char> {
    match r {
        Response::Empty => "ok"@,
        Response::Hello(h) => "daemon "@ + h.daemon@ + " proto "@ + decimal(h.proto.0 as nat) + "..="@
            + decimal(h.proto.1 as nat),
        Response::Snapshot(s) => join_spec(snapshot_lines(s), "\n"@),
        Response::Streams(v) => lines_spec(stream_rows(v@, false, 28)),
        Response::Sinks(v) => lines_spec(sink_rows(v@, false)),
        Response::SinkName(name) => name@,
        Response::Route(route) => match route {
            Some(r) => r.sink@ + " -> "@ + r.device@ + " ("@ + r.description@ + ")"@,
            None => "no route"@,
        },
        Response::OutputDevices(v) => lines_spec(output_rows(v@)),
        Response::Ports(v) => lines_spec(port_rows(v@)),
        Response::Links(v) => lines_spec(link_rows(v@)),
        Response::Devices(v) => lines_spec(device_rows(v@, false, None)),
        Response::SelectedDevice(id) => match id {
            Some(id) => hex_id(id),
            None => "none"@,
        },
        Response::UserDevices(v) => lines_spec(user_rows(v@)),
        Response::ChatMix(mix) => decimal(mix.value as nat) + " ("@ + mode_name(mix.manual) + ")"@,
        Response::EqState(st) => join_spec(eq_lines(st), "\n"@),
        Response::EqPresets(v) => lines_spec(preset_rows(v@)),
        Response::SystemDeps(d) => join_spec(
            seq![
                "pipewire   "@ + mark_spec(d.pipewire),
                "pactl      "@ + mark_spec(d.pactl),
                "pw-link    "@ + mark_spec(d.pw_link),
                "libhidapi  "@ + mark_spec(d.libhidapi),
            ],
            "\n"@,
        ),
        Response::UdevStatus(st) => if st.installed {
            "udev rule installed"@
        } else {
            join_spec(udev_lines(st), "\n"@)
        },
        Response::Icon(icon) => match icon {
            Some(data) => "data:image/png;base64,"@ + data@,
            None => "no icon"@,
        },
    }
}

pub open spec fn mark_spec(present: bool) -> Seq<char> {
    if present {
        "found"@
    } else {
        "MISSING"@
    }
}

fn text_line(parts: &str) -> (r: String)
    ensures
        r@ == parts@,
{
    String::from_str(parts)
}

fn mode_text(manual: bool) -> (r: &'static str)
    ensures
        r@ == mode_name(manual),
{
    if manual {
        "manual"
    } else {
        "wheel"
    }
}

fn counted(label: &str, n: usize) -> (r: String)
    ensures
        r@ == label@ + decimal(n as nat) + ")"@,
{
    let mut s = String::from_str(label);
    push_decimal(&mut s, n as u64);
    s.append(")");
    s
}

fn snapshot_text(s: &Snapshot<String>) -> (r: String)
    ensures
        r@ == join_spec(snapshot_lines(*s), "\n"@),
{
    let mut out: Vec<String> = Vec::new();
    let mut l1 = String::from_str("default sink: ");
    l1.append(s.default_sink.as_str());
    push_line(&mut out, l1);
    let mut l2 = String::from_str("chatmix: ");
    push_decimal(&mut l2, s.chatmix.value as u64);
    l2.append(" (");
    l2.append(mode_text(s.chatmix.manual));
    l2.append(")");
    push_line(&mut out, l2);
    let mut l3 = String::from_str("eq: ");
    l3.append(
        if s.eq.safe_mode {
            "safe mode"
        } else {
            "active"
        },
    );
    push_line(&mut out, l3);
    push_line(&mut out, String::new());
    push_line(&mut out, counted("sinks (", s.sinks.len()));
    push_all(&mut out, sink_lines(&s.sinks, true));
    push_line(&mut out, String::new());
    push_line(&mut out, counted("streams (", s.streams.len()));
    push_all(&mut out, stream_lines(&s.streams, true, 24));
    push_line(&mut out, String::new());
    push_line(&mut out, counted("devices (", s.devices.len()));
    push_all(&mut out, device_lines(&s.devices, true, s.selected_device));
    proof {
        reveal_strlit("eq: ");
        reveal_strlit("safe mode");
        reveal_strlit("active");
    }
    assert(strings_view(out@) =~= snapshot_lines(*s));
    join(&out, "\n")
}

fn band_line(i: usize, b: &EqBand<String>) -> (r: String)
    ensures
        r@ == band_row(i as nat, *b),
{
    let mut out = String::from_str("  [");
    push_right_aligned(&mut out, decimal_string(i as u64).as_str(), 2);
    out.append("] ");
    out.append(b.freq.as_str());
    out.append(" Hz ");
    out.append(b.gain_db.as_str());
    out.append(" dB  Q ");
    out.append(b.q.as_str());
    out.append("  ");
    out.append(filter_text(b.filter_type));
    push_if_set(&mut out, !b.enabled, " (off)");
    assert(out@ =~= band_row(i as nat, *b));
    out
}

fn push_chain(out: &mut Vec<String>, id: EqChainId, c: &EqChain<String>)
    ensures
        strings_view(final(out)@) == strings_view(old(out)@) + (seq![chain_header(id, *c)]
            + band_rows(c.bands@)),
{
    let mut h = String::from_str(chain_text(id));
    h.append(": ");
    h.append(
        if c.enabled {
            "on "
        } else {
            "off"
        },
    );
    h.append(" preamp ");
    h.append(c.preamp_db.as_str());
    h.append(" dB, ");
    push_decimal(&mut h, c.bands.len() as u64);
    h.append(" bands");
    proof {
        reveal_strlit("on ");
        reveal_strlit("off");
    }
    assert(h@ =~= chain_header(id, *c));
    let ghost base = strings_view(out@);
    push_line(out, h);
    let mut i: usize = 0;
    while i < c.bands.len()
        invariant
            i <= c.bands@.len(),
            strings_view(out@) == base + (seq![chain_header(id, *c)] + band_rows(c.bands@).take(
                i as int,
            )),
        decreases c.bands@.len() - i,
    {
        push_line(out, band_line(i, &c.bands[i]));
        assert(strings_view(out@) =~= base + (seq![chain_header(id, *c)] + band_rows(
            c.bands@,
        ).take(i as int + 1)));
        i = i + 1;
    }
    assert(band_rows(c.bands@).take(c.bands@.len() as int) =~= band_rows(c.bands@));
}

fn push_chains(out: &mut Vec<String>, chains: &Vec<(EqChainId, EqChain<String>)>, id: EqChainId)
    ensures
        strings_view(final(out)@) == strings_view(old(out)@) + chain_lines(chains@, id),
{
    let ghost base = strings_view(out@);
    let mut i: usize = 0;
    assert(chains@.take(0) =~= Seq::<(EqChainId, EqChain<String>)>::empty());
    assert(base + chain_lines(chains@.take(0), id) =~= base);
    while i < chains.len()
        invariant
            i <= chains@.len(),
            strings_view(out@) == base + chain_lines(chains@.take(i as int), id),
        decreases chains@.len() - i,
    {
        let entry = &chains[i];
        assert(chains@.take(i as int + 1).drop_last() =~= chains@.take(i as int));
        assert(chains@.take(i as int + 1).last() == chains@[i as int]);
        let same = match (entry.0, id) {
            (EqChainId::Game, EqChainId::Game) => true,
            (EqChainId::Chat, EqChainId::Chat) => true,
            _ => false,
        };
        let ghost prev = chain_lines(chains@.take(i as int), id);
        if same {
            push_chain(out, entry.0, &entry.1);
            assert(base + prev + (seq![chain_header(entry.0, entry.1)] + band_rows(entry.1.bands@))
                =~= base + chain_lines(chains@.take(i as int + 1), id));
        } else {
            assert(prev =~= chain_lines(chains@.take(i as int + 1), id));
        }
        i = i + 1;
    }
    assert(chains@.take(chains@.len() as int) =~= chains@);
}

fn eq_text(st: &EqState<String>) -> (r: String)
    ensures
        r@ == join_spec(eq_lines(*st), "\n"@),
{
    let mut out: Vec<String> = Vec::new();
    if st.safe_mode {
        push_line(&mut out, String::from_str("safe mode: the filter chain is bypassed"));
    }
    push_chains(&mut out, &st.chains, EqChainId::Chat);
    push_chains(&mut out, &st.chains, EqChainId::Game);
    assert(strings_view(out@) =~= eq_lines(*st));
    join(&out, "\n")
}

fn hex_id_text(id: DeviceId) -> (r: String)
    ensures
        r@ == hex_id(id),
{
    let mut s = String::new();
    crate::text::push_hex4(&mut s, id.vendor_id);
    s.append(":");
    crate::text::push_hex4(&mut s, id.product_id);
    assert(s@ =~= hex_id(id));
    s
}

fn deps_text(d: &SystemDeps) -> (r: String)
    ensures
        r@ == join_spec(
            seq![
                "pipewire   "@ + mark_spec(d.pipewire),
                "pactl      "@ + mark_spec(d.pactl),
                "pw-link    "@ + mark_spec(d.pw_link),
                "libhidapi  "@ + mark_spec(d.libhidapi),
            ],
            "\n"@,
        ),
{
    let mut out: Vec<String> = Vec::new();
    let mut a = String::from_str("pipewire   ");
    a.append(mark(d.pipewire));
    push_line(&mut out, a);
    let mut b = String::from_str("pactl      ");
    b.append(mark(d.pactl));
    push_line(&mut out, b);
    let mut c = String::from_str("pw-link    ");
    c.append(mark(d.pw_link));
    push_line(&mut out, c);
    let mut e = String::from_str("libhidapi  ");
    e.append(mark(d.libhidapi));
    push_line(&mut out, e);
    assert(strings_view(out@) =~= seq![
        "pipewire   "@ + mark_spec(d.pipewire),
        "pactl      "@ + mark_spec(d.pactl),
        "pw-link    "@ + mark_spec(d.pw_link),
        "libhidapi  "@ + mark_spec(d.libhidapi),
    ]);
    join(&out, "\n")
}

fn udev_text(st: &UdevStatus) -> (r: String)
    ensures
        r@ == join_spec(udev_lines(*st), "\n"@),
{
    let mut out: Vec<String> = Vec::new();
    push_line(&mut out, String::from_str("udev rule missing or outdated; run:"));
    push_line(&mut out, String::new());
    match &st.install_command {
        Some(cmd) => {
            let mut l = String::from_str("    ");
            let j = shell_join(cmd);
            l.append(j.as_str());
            push_line(&mut out, l);
        },
        None => {},
    }
    assert(strings_view(out@) =~= udev_lines(*st));
    join(&out, "\n")
}

/// Human-readable output for an answer. The EQ's numbers come already
/// written out, with the widths and signs the client shows them with.
pub fn render(response: &Response<String>) -> (r: String)
    ensures
        r@ == render_spec(*response),
{
    match response {
        Response::Empty => String::from_str("ok"),
        Response::Hello(h) => {
            let mut s = String::from_str("daemon ");
            s.append(h.daemon.as_str());
            s.append(" proto ");
            push_decimal(&mut s, h.proto.0 as u64);
            s.append("..=");
            push_decimal(&mut s, h.proto.1 as u64);
            s
        },
        Response::Snapshot(s) => snapshot_text(s),
        Response::Streams(v) => lines(&stream_lines(v, false, 28)),
        Response::Sinks(v) => lines(&sink_lines(v, false)),
        Response::SinkName(name) => String::from_str(name.as_str()),
        Response::Route(route) => match route {
            Some(r) => {
                let mut s = String::from_str(r.sink.as_str());
                s.append(" -> ");
                s.append(r.device.as_str());
                s.append(" (");
                s.append(r.description.as_str());
                s.append(")");
                s
            },
            None => String::from_str("no route"),
        },
        Response::OutputDevices(v) => lines(&output_lines(v)),
        Response::Ports(v) => lines(&port_lines(v)),
        Response::Links(v) => lines(&link_lines(v)),
        Response::Devices(v) => lines(&device_lines(v, false, None)),
        Response::SelectedDevice(id) => match id {
            Some(id) => hex_id_text(*id),
            None => String::from_str("none"),
        },
        Response::UserDevices(v) => lines(&user_lines(v)),
        Response::ChatMix(mix) => {
            let mut s = String::new();
            push_decimal(&mut s, mix.value as u64);
            s.append(" (");
            s.append(mode_text(mix.manual));
            s.append(")");
            assert(s@ =~= decimal(mix.value as nat) + " ("@ + mode_name(mix.manual) + ")"@);
            s
        },
        Response::EqState(st) => eq_text(st),
        Response::EqPresets(v) => lines(&preset_lines(v)),
        Response::SystemDeps(d) => deps_text(d),
        Response::UdevStatus(st) => if st.installed {
            String::from_str("udev rule installed")
        } else {
            udev_text(st)
        },
        Response::Icon(icon) => match icon {
            Some(data) => {
                let mut s = String::from_str("data:image/png;base64,");
                s.append(data.as_str());
                s
            },
            None => String::from_str("no icon"),
        },
    }
}

/// A band row of the EQ listing: it begins with `  [`.
pub open spec fn is_band_line(l: Seq<char>) -> bool {
    has_prefix(l, "  ["@)
}

/// The banner the EQ listing opens with in safe mode.
pub open spec fn safe_mode_banner() -> Seq<char> {
    "safe mode: the filter chain is bypassed"@
}

/// A chain header of the EQ listing for chain `id`: it begins with its name
/// and `: `.
pub open spec fn is_header_of(l: Seq<char>, id: EqChainId) -> bool {
    has_prefix(l, chain_name(id) + ": "@)
}

/// At `h` stands the header of a chain listed under `id`, followed by
/// exactly one band row per band of that chain and then no further band row.
pub open spec fn block_at(lines: Seq<Seq<char>>, h: int, cs: Seq<(EqChainId, EqChain<String>)>, id: EqChainId) -> bool {
    exists|k: int|
        0 <= k < cs.len() && cs[k].0 == id && #[trigger] chain_header(cs[k].0, cs[k].1) == lines[h]
            && {
            let n = cs[k].1.bands@.len() as int;
            &&& h + n < lines.len()
            &&& forall|t: int| 1 <= t <= n ==> is_band_line(#[trigger] lines[h + t])
            &&& h + n + 1 < lines.len() ==> !is_band_line(lines[h + n + 1])
        }
}

proof fn lemma_band_row_shape(i: nat, b: EqBand<String>)
    ensures
        is_band_line(band_row(i, b)),
{
    reveal_strlit("  [");
    let l = band_row(i, b);
    assert(l.take(3) =~= "  ["@);
}

proof fn lemma_header_shape(id: EqChainId, c: EqChain<String>)
    ensures
        !is_band_line(chain_header(id, c)),
        is_header_of(chain_header(id, c), id),
        !is_header_of(chain_header(id, c), if id == EqChainId::Chat { EqChainId::Game } else { EqChainId::Chat }),
        chain_header(id, c) != safe_mode_banner(),
{
    reveal_strlit("  [");
    reveal_strlit("Chat");
    reveal_strlit("Game");
    reveal_strlit(": ");
    reveal_strlit("safe mode: the filter chain is bypassed");
    let l = chain_header(id, c);
    let p = chain_name(id) + ": "@;
    assert(l.take(p.len() as int) =~= p);
    assert(l[0] == p[0]);
    assert(l[0] == l.take(6)[0]);
    if has_prefix(l, "  ["@) {
        assert(l.take(3)[0] == l[0]);
    }
    let q = chain_name(if id == EqChainId::Chat { EqChainId::Game } else { EqChainId::Chat }) + ": "@;
    if has_prefix(l, q) {
        assert(l.take(6)[0] == q[0]);
    }
    assert(safe_mode_banner()[0] == 's');
}

proof fn lemma_banner_not_band()
    ensures
        !is_band_line(safe_mode_banner()),
        !is_header_of(safe_mode_banner(), EqChainId::Chat),
        !is_header_of(safe_mode_banner(), EqChainId::Game),
{
    reveal_strlit("  [");
    reveal_strlit("Chat");
    reveal_strlit("Game");
    reveal_strlit(": ");
    reveal_strlit("safe mode: the filter chain is bypassed");
    let l = safe_mode_banner();
    assert(l.take(3)[0] == l[0]);
    assert(l.take(6)[0] == l[0]);
}

/// Every line of the chains listed under `id` is one of their headers or a
/// band row; each header is followed by exactly its chain's band rows; and
/// the first line, if any, is a header.
proof fn lemma_chain_lines_layout(cs: Seq<(EqChainId, EqChain<String>)>, id: EqChainId)
    ensures
        forall|i: int|
            0 <= i < chain_lines(cs, id).len() ==> is_band_line(#[trigger] chain_lines(cs, id)[i])
                || (is_header_of(chain_lines(cs, id)[i], id) && !is_band_line(chain_lines(cs, id)[i])
                && block_at(chain_lines(cs, id), i, cs, id)),
        chain_lines(cs, id).len() > 0 ==> !is_band_line(chain_lines(cs, id)[0]),
        forall|i: int|
            0 <= i < chain_lines(cs, id).len() ==> !is_header_of(
                #[trigger] chain_lines(cs, id)[i],
                if id == EqChainId::Chat { EqChainId::Game } else { EqChainId::Chat },
            ) && chain_lines(cs, id)[i] != safe_mode_banner(),
    decreases cs.len(),
{
    reveal_strlit("  [");
    reveal_strlit("safe mode: the filter chain is bypassed");
    if cs.len() == 0 {
        return;
    }
    let pre = cs.drop_last();
    lemma_chain_lines_layout(pre, id);
    let prev = chain_lines(pre, id);
    let l = chain_lines(cs, id);
    if cs.last().0 != id {
        assert(l =~= prev);
        assert forall|i: int| 0 <= i < l.len() && !is_band_line(l[i]) implies block_at(l, i, cs, id) by {
            let k = choose|k: int|
                0 <= k < pre.len() && pre[k].0 == id && #[trigger] chain_header(pre[k].0, pre[k].1) == prev[i]
                    && {
                    let n = pre[k].1.bands@.len() as int;
                    &&& i + n < prev.len()
                    &&& forall|t: int| 1 <= t <= n ==> is_band_line(#[trigger] prev[i + t])
                    &&& i + n + 1 < prev.len() ==> !is_band_line(prev[i + n + 1])
                };
            assert(cs[k] == pre[k]);
        }
        return;
    }
    let c = cs.last().1;
    let hd = chain_header(cs.last().0, c);
    let rows = band_rows(c.bands@);
    assert(l =~= prev + seq![hd] + rows);
    lemma_header_shape(id, c);
    assert forall|t: int| 0 <= t < rows.len() implies is_band_line(#[trigger] rows[t]) && !is_header_of(
        rows[t],
        if id == EqChainId::Chat { EqChainId::Game } else { EqChainId::Chat },
    ) && rows[t] != safe_mode_banner() by {
        lemma_band_row_shape(t as nat, c.bands@[t]);
        let q = chain_name(if id == EqChainId::Chat { EqChainId::Game } else { EqChainId::Chat }) + ": "@;
        reveal_strlit("Chat");
        reveal_strlit("Game");
        reveal_strlit(": ");
        if has_prefix(rows[t], q) {
            assert(rows[t].take(6)[0] == q[0]);
            assert(rows[t].take(3)[0] == rows[t][0]);
        }
        if rows[t] == safe_mode_banner() {
            assert(rows[t].take(3)[0] == rows[t][0]);
        }
    }
    let n = c.bands@.len() as int;
    let p = prev.len() as int;
    assert forall|i: int| 0 <= i < l.len() && !is_band_line(l[i]) implies is_header_of(l[i], id) && block_at(l, i, cs, id) by {
        if i < p {
            let k = choose|k: int|
                0 <= k < pre.len() && pre[k].0 == id && #[trigger] chain_header(pre[k].0, pre[k].1) == prev[i]
                    && {
                    let m = pre[k].1.bands@.len() as int;
                    &&& i + m < prev.len()
                    &&& forall|t: int| 1 <= t <= m ==> is_band_line(#[trigger] prev[i + t])
                    &&& i + m + 1 < prev.len() ==> !is_band_line(prev[i + m + 1])
                };
            assert(cs[k] == pre[k]);
            let m = pre[k].1.bands@.len() as int;
            assert forall|t: int| 1 <= t <= m implies is_band_line(#[trigger] l[i + t]) by {
                assert(l[i + t] == prev[i + t]);
            }
            if i + m + 1 < l.len() {
                if i + m + 1 < p {
                    assert(l[i + m + 1] == prev[i + m + 1]);
                } else {
                    assert(l[i + m + 1] == hd);
                }
            }
        } else {
            assert(i == p);
            assert(l[i] == hd);
            assert(cs[cs.len() - 1] == cs.last());
            assert forall|t: int| 1 <= t <= n implies is_band_line(#[trigger] l[i + t]) by {
                assert(l[i + t] == rows[t - 1]);
            }
        }
    }
    if prev.len() == 0 {
        assert(l[0] == hd);
    } else {
        assert(l[0] == prev[0]);
    }
}

/// The EQ listing: in safe mode, and only then, it opens with the banner;
/// every other line is a chain header or a band row; every `Chat` header
/// comes before every `Game` header; and each header is followed by exactly
/// one band row per band of its chain. The numbers arrive as text, so this
/// speaks of the listing's lines, before they are joined.
#[verifier::spinoff_prover]
#[verifier::rlimit(40)]
pub proof fn lemma_eq_lines_layout(st: EqState<String>)
    ensures
        (eq_lines(st).len() > 0 && eq_lines(st)[0] == safe_mode_banner()) == st.safe_mode,
        forall|i: int|
            0 <= i < eq_lines(st).len() && !(st.safe_mode && i == 0) ==> is_band_line(
                #[trigger] eq_lines(st)[i],
            ) || block_at(eq_lines(st), i, st.chains@, EqChainId::Chat) || block_at(
                eq_lines(st),
                i,
                st.chains@,
                EqChainId::Game,
            ),
        forall|i: int, j: int|
            0 <= i < j < eq_lines(st).len() && is_header_of(#[trigger] eq_lines(st)[j], EqChainId::Chat)
                ==> !is_header_of(#[trigger] eq_lines(st)[i], EqChainId::Game),
{
    let cs = st.chains@;
    lemma_chain_lines_layout(cs, EqChainId::Chat);
    lemma_chain_lines_layout(cs, EqChainId::Game);
    lemma_banner_not_band();
    let b = if st.safe_mode { seq![safe_mode_banner()] } else { Seq::<Seq<char>>::empty() };
    let chat = chain_lines(cs, EqChainId::Chat);
    let game = chain_lines(cs, EqChainId::Game);
    let l = eq_lines(st);
    assert(l =~= b + chat + game);
    let bl = b.len() as int;
    let cl = chat.len() as int;
    assert forall|i: int| 0 <= i < l.len() && !(st.safe_mode && i == 0) && !is_band_line(l[i]) implies block_at(l, i, cs, EqChainId::Chat) || block_at(l, i, cs, EqChainId::Game) by {
        if i < bl + cl {
            let h = i - bl;
            assert(l[i] == chat[h]);
            let k = choose|k: int|
                0 <= k < cs.len() && cs[k].0 == EqChainId::Chat && #[trigger] chain_header(cs[k].0, cs[k].1) == chat[h]
                    && {
                    let m = cs[k].1.bands@.len() as int;
                    &&& h + m < chat.len()
                    &&& forall|t: int| 1 <= t <= m ==> is_band_line(#[trigger] chat[h + t])
                    &&& h + m + 1 < chat.len() ==> !is_band_line(chat[h + m + 1])
                };
            let m = cs[k].1.bands@.len() as int;
            assert forall|t: int| 1 <= t <= m implies is_band_line(#[trigger] l[i + t]) by {
                assert(l[i + t] == chat[h + t]);
            }
            if i + m + 1 < l.len() {
                if h + m + 1 < cl {
                    assert(l[i + m + 1] == chat[h + m + 1]);
                } else {
                    assert(l[i + m + 1] == game[0]);
                }
            }
            assert(block_at(l, i, cs, EqChainId::Chat));
        } else {
            let h = i - bl - cl;
            assert(l[i] == game[h]);
            let k = choose|k: int|
                0 <= k < cs.len() && cs[k].0 == EqChainId::Game && #[trigger] chain_header(cs[k].0, cs[k].1) == game[h]
                    && {
                    let m = cs[k].1.bands@.len() as int;
                    &&& h + m < game.len()
                    &&& forall|t: int| 1 <= t <= m ==> is_band_line(#[trigger] game[h + t])
                    &&& h + m + 1 < game.len() ==> !is_band_line(game[h + m + 1])
                };
            let m = cs[k].1.bands@.len() as int;
            assert forall|t: int| 1 <= t <= m implies is_band_line(#[trigger] l[i + t]) by {
                assert(l[i + t] == game[h + t]);
            }
            if i + m + 1 < l.len() {
                assert(l[i + m + 1] == game[h + m + 1]);
            }
            assert(block_at(l, i, cs, EqChainId::Game));
        }
    }
    assert forall|i: int, j: int|
        0 <= i < j < l.len() && is_header_of(#[trigger] l[j], EqChainId::Chat) implies !is_header_of(#[trigger] l[i], EqChainId::Game) by {
        if j >= bl + cl {
            assert(l[j] == game[j - bl - cl]);
        }
        if i >= bl && i < bl + cl {
            assert(l[i] == chat[i - bl]);
        }
        if i < bl {
            assert(l[i] == safe_mode_banner());
        }
    }
    if !st.safe_mode && l.len() > 0 {
        if cl > 0 {
            assert(l[0] == chat[0]);
        } else {
            assert(l[0] == game[0]);
        }
    }
}

/// `s` holds no line break.
pub open spec fn no_newline(s: Seq<char>) -> bool {
    forall|i: int| 0 <= i < s.len() ==> #[trigger] s[i] != '\n'
}

/// The lines of `s`, split at each line break; an empty text is one empty
/// line.
pub open spec fn text_lines(s: Seq<char>) -> Seq<Seq<char>>
    decreases s.len(),
{
    if s.len() == 0 {
        seq![Seq::<char>::empty()]
    } else {
        let t = text_lines(s.drop_last());
        if s.last() == '\n' {
            t.push(Seq::<char>::empty())
        } else {
            t.update(t.len() - 1, t.last().push(s.last()))
        }
    }
}

proof fn lemma_text_lines_nonempty(s: Seq<char>)
    ensures
        text_lines(s).len() >= 1,
    decreases s.len(),
{
    if s.len() > 0 {
        lemma_text_lines_nonempty(s.drop_last());
    }
}

/// Text without a line break extends the last line.
proof fn lemma_text_lines_extend(a: Seq<char>, b: Seq<char>)
    requires
        no_newline(b),
    ensures
        text_lines(a + b) == text_lines(a).update(
            text_lines(a).len() - 1,
            text_lines(a).last() + b,
        ),
    decreases b.len(),
{
    lemma_text_lines_nonempty(a);
    if b.len() == 0 {
        assert(a + b =~= a);
        assert(text_lines(a).last() + b =~= text_lines(a).last());
        assert(text_lines(a).update(text_lines(a).len() - 1, text_lines(a).last()) =~= text_lines(a));
    } else {
        let b1 = b.drop_last();
        assert(no_newline(b1));
        lemma_text_lines_extend(a, b1);
        assert((a + b).drop_last() =~= a + b1);
        assert((a + b).last() == b.last());
        assert(b.last() != '\n');
        let t = text_lines(a);
        let t1 = t.update(t.len() - 1, t.last() + b1);
        lemma_text_lines_nonempty(a + b1);
        assert(t1.last() == t.last() + b1);
        assert((t.last() + b1).push(b.last()) =~= t.last() + b);
        assert(t1.update(t1.len() - 1, t1.last().push(b.last())) =~= t.update(t.len() - 1, t.last() + b));
    }
}

/// A line break followed by text without one starts a new last line.
proof fn lemma_text_lines_break(a: Seq<char>, b: Seq<char>)
    requires
        no_newline(b),
    ensures
        text_lines(a + "\n"@ + b) == text_lines(a).push(b),
{
    reveal_strlit("\n");
    let an = a + "\n"@;
    assert(an.drop_last() =~= a);
    assert(an.last() == '\n');
    assert(text_lines(an) == text_lines(a).push(Seq::<char>::empty()));
    lemma_text_lines_extend(an, b);
    assert(Seq::<char>::empty() + b =~= b);
    assert(text_lines(a).push(Seq::<char>::empty()).update(text_lines(a).len() as int, b) =~= text_lines(a).push(b));
}

/// Lines without line breaks, joined with line breaks, split back into
/// the same lines.
pub proof fn lemma_join_splits_back(ls: Seq<Seq<char>>)
    requires
        ls.len() >= 1,
        forall|i: int| 0 <= i < ls.len() ==> no_newline(#[trigger] ls[i]),
    ensures
        text_lines(join_spec(ls, "\n"@)) == ls,
    decreases ls.len(),
{
    if ls.len() == 1 {
        assert(no_newline(ls[0]));
        lemma_text_lines_extend(Seq::<char>::empty(), ls[0]);
        assert(Seq::<char>::empty() + ls[0] =~= ls[0]);
        assert(Seq::<char>::empty() + ls[0] =~= ls[0]);
        assert(text_lines(Seq::<char>::empty()) == seq![Seq::<char>::empty()]);
        assert(seq![Seq::<char>::empty()].update(0, Seq::<char>::empty() + ls[0]) =~= ls);
    } else {
        let pre = ls.drop_last();
        assert forall|i: int| 0 <= i < pre.len() implies no_newline(#[trigger] pre[i]) by {
            assert(pre[i] == ls[i]);
        }
        lemma_join_splits_back(pre);
        assert(no_newline(ls[ls.len() - 1]));
        lemma_text_lines_break(join_spec(pre, "\n"@), ls.last());
        assert(pre.push(ls.last()) =~= ls);
    }
}

proof fn lemma_concat_no_newline(a: Seq<char>, b: Seq<char>)
    requires
        no_newline(a),
        no_newline(b),
    ensures
        no_newline(a + b),
{
    assert forall|i: int| 0 <= i < (a + b).len() implies #[trigger] (a + b)[i] != '\n' by {
        if i < a.len() {
            assert((a + b)[i] == a[i]);
        } else {
            assert((a + b)[i] == b[i - a.len()]);
        }
    }
}

proof fn lemma_decimal_no_newline(n: nat)
    ensures
        no_newline(decimal(n)),
    decreases n,
{
    if n >= 10 {
        lemma_decimal_no_newline(n / 10);
        let d = decimal(n / 10);
        let c = crate::text::hex_digit_spec((n % 10) as int);
        assert forall|i: int| 0 <= i < d.push(c).len() implies #[trigger] d.push(c)[i] != '\n' by {
            if i < d.len() {
                assert(d.push(c)[i] == d[i]);
            }
        }
    }
}

proof fn lemma_literals_no_newline()
    ensures
        no_newline(safe_mode_banner()),
        no_newline("Chat"@),
        no_newline("Game"@),
        no_newline(": "@),
        no_newline("on "@),
        no_newline("off"@),
        no_newline(" preamp "@),
        no_newline(" dB, "@),
        no_newline(" bands"@),
        no_newline("  ["@),
        no_newline("] "@),
        no_newline(" Hz "@),
        no_newline(" dB  Q "@),
        no_newline("  "@),
        no_newline(" (off)"@),
        no_newline("Peaking"@),
        no_newline("LowShelf"@),
        no_newline("HighShelf"@),
        no_newline("LowPass"@),
        no_newline("HighPass"@),
        no_newline("Notch"@),
        no_newline(Seq::<char>::empty()),
{
    reveal_strlit("safe mode: the filter chain is bypassed");
    reveal_strlit("Chat");
    reveal_strlit("Game");
    reveal_strlit(": ");
    reveal_strlit("on ");
    reveal_strlit("off");
    reveal_strlit(" preamp ");
    reveal_strlit(" dB, ");
    reveal_strlit(" bands");
    reveal_strlit("  [");
    reveal_strlit("] ");
    reveal_strlit(" Hz ");
    reveal_strlit(" dB  Q ");
    reveal_strlit("  ");
    reveal_strlit(" (off)");
    reveal_strlit("Peaking");
    reveal_strlit("LowShelf");
    reveal_strlit("HighShelf");
    reveal_strlit("LowPass");
    reveal_strlit("HighPass");
    reveal_strlit("Notch");
}

/// The numbers of an EQ state, as written, hold no line break.
pub open spec fn eq_text_plain(st: EqState<String>) -> bool {
    forall|k: int| 0 <= k < st.chains@.len() ==> {
        let c = #[trigger] st.chains@[k].1;
        &&& no_newline(c.preamp_db@)
        &&& forall|b: int| 0 <= b < c.bands@.len() ==> {
            let band = #[trigger] c.bands@[b];
            no_newline(band.freq@) && no_newline(band.gain_db@) && no_newline(band.q@)
        }
    }
}

proof fn lemma_chain_lines_plain(cs: Seq<(EqChainId, EqChain<String>)>, id: EqChainId)
    requires
        forall|k: int| 0 <= k < cs.len() ==> {
            let c = #[trigger] cs[k].1;
            &&& no_newline(c.preamp_db@)
            &&& forall|b: int| 0 <= b < c.bands@.len() ==> {
                let band = #[trigger] c.bands@[b];
                no_newline(band.freq@) && no_newline(band.gain_db@) && no_newline(band.q@)
            }
        },
    ensures
        forall|i: int| 0 <= i < chain_lines(cs, id).len() ==> no_newline(#[trigger] chain_lines(cs, id)[i]),
    decreases cs.len(),
{
    if cs.len() > 0 {
        let pre = cs.drop_last();
        assert forall|k: int| 0 <= k < pre.len() implies {
            let c = #[trigger] pre[k].1;
            &&& no_newline(c.preamp_db@)
            &&& forall|b: int| 0 <= b < c.bands@.len() ==> {
                let band = #[trigger] c.bands@[b];
                no_newline(band.freq@) && no_newline(band.gain_db@) && no_newline(band.q@)
            }
        } by {
            assert(pre[k] == cs[k]);
        }
        lemma_chain_lines_plain(pre, id);
        let prev = chain_lines(pre, id);
        let l = chain_lines(cs, id);
        if cs.last().0 == id {
            let c = cs.last().1;
            assert(cs[cs.len() - 1] == cs.last());
            let hd = chain_header(cs.last().0, c);
            let rows = band_rows(c.bands@);
            assert(l =~= prev + seq![hd] + rows);
            lemma_literals_no_newline();
            lemma_decimal_no_newline(c.bands@.len());
            let name = chain_name(cs.last().0);
            let onoff = if c.enabled { "on "@ } else { "off"@ };
            lemma_concat_no_newline(name, ": "@);
            lemma_concat_no_newline(name + ": "@, onoff);
            lemma_concat_no_newline(name + ": "@ + onoff, " preamp "@);
            lemma_concat_no_newline(name + ": "@ + onoff + " preamp "@, c.preamp_db@);
            lemma_concat_no_newline(name + ": "@ + onoff + " preamp "@ + c.preamp_db@, " dB, "@);
            lemma_concat_no_newline(name + ": "@ + onoff + " preamp "@ + c.preamp_db@ + " dB, "@, decimal(c.bands@.len()));
            lemma_concat_no_newline(
                name + ": "@ + onoff + " preamp "@ + c.preamp_db@ + " dB, "@ + decimal(c.bands@.len()),
                " bands"@,
            );
            assert forall|t: int| 0 <= t < rows.len() implies no_newline(#[trigger] rows[t]) by {
                let b = c.bands@[t];
                assert(no_newline(b.freq@) && no_newline(b.gain_db@) && no_newline(b.q@));
                lemma_decimal_no_newline(t as nat);
                let d = decimal(t as nat);
                let pd = pad_left(d, 2);
                assert(no_newline(pd)) by {
                    if d.len() < 2 {
                        let sp = crate::cli::rows::spaces((2 - d.len()) as nat);
                        lemma_concat_no_newline(sp, d);
                    }
                }
                let fname = filter_name(b.filter_type);
                let off = if_set(!b.enabled, " (off)"@);
                lemma_concat_no_newline("  ["@, pd);
                lemma_concat_no_newline("  ["@ + pd, "] "@);
                lemma_concat_no_newline("  ["@ + pd + "] "@, b.freq@);
                lemma_concat_no_newline("  ["@ + pd + "] "@ + b.freq@, " Hz "@);
                lemma_concat_no_newline("  ["@ + pd + "] "@ + b.freq@ + " Hz "@, b.gain_db@);
                lemma_concat_no_newline("  ["@ + pd + "] "@ + b.freq@ + " Hz "@ + b.gain_db@, " dB  Q "@);
                lemma_concat_no_newline("  ["@ + pd + "] "@ + b.freq@ + " Hz "@ + b.gain_db@ + " dB  Q "@, b.q@);
                lemma_concat_no_newline("  ["@ + pd + "] "@ + b.freq@ + " Hz "@ + b.gain_db@ + " dB  Q "@ + b.q@, "  "@);
                lemma_concat_no_newline(
                    "  ["@ + pd + "] "@ + b.freq@ + " Hz "@ + b.gain_db@ + " dB  Q "@ + b.q@ + "  "@,
                    fname,
                );
                lemma_concat_no_newline(
                    "  ["@ + pd + "] "@ + b.freq@ + " Hz "@ + b.gain_db@ + " dB  Q "@ + b.q@ + "  "@ + fname,
                    off,
                );
                assert(rows[t] == band_row(t as nat, b));
            }
            assert forall|i: int| 0 <= i < l.len() implies no_newline(#[trigger] l[i]) by {
                if i < prev.len() {
                    assert(l[i] == prev[i]);
                } else if i == prev.len() {
                    assert(l[i] == hd);
                } else {
                    assert(l[i] == rows[i - prev.len() - 1]);
                }
            }
        } else {
            assert(l =~= prev);
        }
    }
}

/// The EQ listing as text: when the numbers were written without line
/// breaks, the text's lines are exactly the listing's lines, so
/// `lemma_eq_lines_layout` speaks of the text a person reads.
pub proof fn lemma_eq_text_lines(st: EqState<String>)
    requires
        eq_text_plain(st),
    ensures
        eq_lines(st).len() > 0 ==> text_lines(render_spec(Response::EqState(st))) == eq_lines(st),
{
    let cs = st.chains@;
    lemma_chain_lines_plain(cs, EqChainId::Chat);
    lemma_chain_lines_plain(cs, EqChainId::Game);
    lemma_literals_no_newline();
    let b = if st.safe_mode { seq![safe_mode_banner()] } else { Seq::<Seq<char>>::empty() };
    let chat = chain_lines(cs, EqChainId::Chat);
    let game = chain_lines(cs, EqChainId::Game);
    let l = eq_lines(st);
    assert(l =~= b + chat + game);
    assert forall|i: int| 0 <= i < l.len() implies no_newline(#[trigger] l[i]) by {
        if i < b.len() {
            assert(l[i] == safe_mode_banner());
        } else if i < b.len() + chat.len() {
            assert(l[i] == chat[i - b.len()]);
        } else {
            assert(l[i] == game[i - b.len() - chat.len()]);
        }
    }
    if l.len() > 0 {
        lemma_join_splits_back(l);
    }
}

/// A truncated cell never takes more than its width, one character at the
/// least, and a cell that fits is left alone.
pub proof fn lemma_truncate_fits(s: Seq<char>, width: nat)
    ensures
        truncate_spec(s, width).len() <= if width == 0 {
            1
        } else {
            width
        },
        s.len() <= width ==> truncate_spec(s, width) == s,
{
}

} // verus!
