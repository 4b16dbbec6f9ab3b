//! Inserting the EQ chains between the virtual sinks and the output device,
//! and putting the direct link back for shutdown and safe mode.
//!
//! Each operation reads one snapshot of the graph's links and answers with
//! the steps to take, in order: the caller performs them, ignoring a failed
//! unlink and stopping at a failed link. Ports are matched by id where both
//! sides carry one, since node names are not unique.

use crate::control::error::{core_error_message, CoreError};
use crate::control::nodes::{
    is_managed_node, is_managed_spec, output_node_name, output_node_spec, sink_node_name,
    sink_node_spec, source_sink_for, source_sink_spec,
};
use crate::proto::{port_view, EqChainId, Link, PortRef, CHAT_SINK, GAME_SINK};
use crate::text::{debug_quote, debug_quoted, has_prefix, starts_with, str_eq};
use vstd::prelude::*;
use vstd::string::*;

verus! {

/// Whether two port references name the same port: by id where both have
/// one, else by node and port name.
pub open spec fn same_port_spec(
    a: (Seq<char>, Seq<char>, Option<u32>),
    b: (Seq<char>, Seq<char>, Option<u32>),
) -> bool {
    match (a.2, b.2) {
        (Some(x), Some(y)) => x == y,
        _ => a.0 == b.0 && a.1 == b.1,
    }
}

/// Every port linked from `source`, in the order of the links.
pub open spec fn targets_spec(links: Seq<Link>, source: (Seq<char>, Seq<char>, Option<u32>)) -> Seq<
    (Seq<char>, Seq<char>, Option<u32>),
>
    decreases links.len(),
{
    if links.len() == 0 {
        Seq::empty()
    } else {
        let rest = targets_spec(links.drop_last(), source);
        if same_port_spec(port_view(links.last().source), source) {
            rest.push(port_view(links.last().target))
        } else {
            rest
        }
    }
}

/// The first of `ports` on a node the daemon does not manage.
pub open spec fn first_unmanaged(ports: Seq<(Seq<char>, Seq<char>, Option<u32>)>) -> Option<
    Seq<char>,
>
    decreases ports.len(),
{
    if ports.len() == 0 {
        None
    } else if !is_managed_spec(ports[0].0) {
        Some(ports[0].0)
    } else {
        first_unmanaged(ports.drop_first())
    }
}

/// The device a chain feeds: the first node the EQ output's left channel is
/// linked to that the daemon does not manage, else the first such node the
/// sink's left monitor feeds directly. A managed node is never a target: a
/// stale EQ output left pointing into one is ignored.
pub open spec fn current_target_spec(links: Seq<Link>, chain: EqChainId) -> Option<Seq<char>> {
    let out = targets_spec(links, (output_node_spec(chain), "output_FL"@, None));
    match first_unmanaged(out) {
        Some(d) => Some(d),
        None => first_unmanaged(
            targets_spec(links, (source_sink_spec(chain), "monitor_FL"@, None)),
        ),
    }
}

pub open spec fn is_physical_output(name: Seq<char>) -> bool {
    has_prefix(name, "alsa_output"@) || has_prefix(name, "bluez_output"@)
}

pub open spec fn first_physical(names: Seq<Seq<char>>) -> Option<Seq<char>>
    decreases names.len(),
{
    if names.len() == 0 {
        None
    } else if is_physical_output(names[0]) {
        Some(names[0])
    } else {
        first_physical(names.drop_first())
    }
}

/// A real hardware output: the default sink when it is a physical device,
/// otherwise the first ALSA or Bluetooth sink.
pub open spec fn fallback_spec(default: Option<Seq<char>>, sinks: Option<Seq<Seq<char>>>) -> Option<
    Seq<char>,
> {
    if default is Some && !is_managed_spec(default->0) && !has_prefix(default->0, "auto_null"@) {
        default
    } else {
        match sinks {
            Some(s) => first_physical(s),
            None => None,
        }
    }
}

pub open spec fn feedback_message(device: Seq<char>) -> Seq<char> {
    "refusing to route EQ into managed node "@ + debug_quoted(device) + ": feedback loop"@
}

fn copy_port(p: &PortRef) -> (r: PortRef)
    ensures
        port_view(r) == port_view(*p),
{
    PortRef {
        node_name: String::from_str(p.node_name.as_str()),
        port_name: String::from_str(p.port_name.as_str()),
        id: p.id,
    }
}

/// A port reference without an id.
pub fn port(node: &str, name: &str) -> (r: PortRef)
    ensures
        port_view(r) == (node@, name@, None::<u32>),
{
    PortRef { node_name: String::from_str(node), port_name: String::from_str(name), id: None }
}

pub fn same_port(a: &PortRef, b: &PortRef) -> (r: bool)
    ensures
        r == same_port_spec(port_view(*a), port_view(*b)),
{
    match (a.id, b.id) {
        (Some(x), Some(y)) => x == y,
        _ => str_eq(a.node_name.as_str(), b.node_name.as_str()) && str_eq(
            a.port_name.as_str(),
            b.port_name.as_str(),
        ),
    }
}

pub open spec fn ports_view(v: Seq<PortRef>) -> Seq<(Seq<char>, Seq<char>, Option<u32>)> {
    v.map_values(|p: PortRef| port_view(p))
}

/// Every port currently linked from `source`.
pub fn targets_of(links: &Vec<Link>, source: &PortRef) -> (r: Vec<PortRef>)
    ensures
        ports_view(r@) == targets_spec(links@, port_view(*source)),
{
    let mut out: Vec<PortRef> = Vec::new();
    let n = links.len();
    let mut i: usize = 0;
    while i < n
        invariant
            n == links@.len(),
            i <= n,
            ports_view(out@) == targets_spec(links@.take(i as int), port_view(*source)),
        decreases n - i,
    {
        let l = &links[i];
        assert(links@.take(i as int + 1).drop_last() =~= links@.take(i as int));
        assert(links@.take(i as int + 1).last() == links@[i as int]);
        if same_port(&l.source, source) {
            let t = copy_port(&l.target);
            let ghost before = out@;
            out.push(t);
            assert(ports_view(out@) =~= ports_view(before).push(port_view(t)));
        }
        i = i + 1;
    }
    assert(links@.take(n as int) =~= links@);
    out
}

/// Refuses to point the EQ at one of the daemon's own nodes: that would
/// feed the chain its own output.
pub fn reject_managed(device: &str) -> (r: Result<(), CoreError>)
    ensures
        is_managed_spec(device@) ==> (r matches Err(CoreError::Invalid(m)) && m@
            == feedback_message(device@)),
        !is_managed_spec(device@) ==> r is Ok,
{
    if is_managed_node(device) {
        let mut m = String::from_str("refusing to route EQ into managed node ");
        let q = debug_quote(device);
        m.append(q.as_str());
        m.append(": feedback loop");
        return Err(CoreError::Invalid(m));
    }
    Ok(())
}

pub open spec fn names_view(v: Seq<String>) -> Seq<Seq<char>> {
    v.map_values(|s: String| s@)
}

/// Picks a real hardware output from the default sink (when the graph
/// answered) and the list of sinks (when it answered).
pub fn fallback_output_device(default: Option<&str>, sinks: Option<&Vec<String>>) -> (r: Option<
    String,
>)
    ensures
        match r {
            Some(d) => fallback_spec(
                match default {
                    Some(x) => Some(x@),
                    None => None,
                },
                match sinks {
                    Some(s) => Some(names_view(s@)),
                    None => None,
                },
            ) == Some(d@),
            None => fallback_spec(
                match default {
                    Some(x) => Some(x@),
                    None => None,
                },
                match sinks {
                    Some(s) => Some(names_view(s@)),
                    None => None,
                },
            ) is None,
        },
{
    if let Some(d) = default {
        if !is_managed_node(d) && !starts_with(d, "auto_null") {
            return Some(String::from_str(d));
        }
    }
    match sinks {
        None => None,
        Some(s) => find_physical(s),
    }
}

fn find_physical(s: &Vec<String>) -> (r: Option<String>)
    ensures
        match r {
            Some(d) => first_physical(names_view(s@)) == Some(d@),
            None => first_physical(names_view(s@)) is None,
        },
{
    let ghost names = names_view(s@);
    let n = s.len();
    let mut i: usize = 0;
    assert(names.skip(0) =~= names);
    while i < n
        invariant
            n == s@.len(),
            names == names_view(s@),
            i <= n,
            first_physical(names) == first_physical(names.skip(i as int)),
        decreases n - i,
    {
        let name = s[i].as_str();
        assert(names.skip(i as int)[0] == name@);
        assert(names.skip(i as int).drop_first() =~= names.skip(i as int + 1));
        if starts_with(name, "alsa_output") || starts_with(name, "bluez_output") {
            return Some(String::from_str(name));
        }
        i = i + 1;
    }
    assert(names.skip(n as int) =~= Seq::<Seq<char>>::empty());
    None
}

fn find_unmanaged(direct: &Vec<PortRef>) -> (r: Option<String>)
    ensures
        match r {
            Some(d) => first_unmanaged(ports_view(direct@)) == Some(d@),
            None => first_unmanaged(ports_view(direct@)) is None,
        },
{
    let ghost ports = ports_view(direct@);
    let n = direct.len();
    let mut i: usize = 0;
    assert(ports.skip(0) =~= ports);
    while i < n
        invariant
            n == direct@.len(),
            ports == ports_view(direct@),
            i <= n,
            first_unmanaged(ports) == first_unmanaged(ports.skip(i as int)),
        decreases n - i,
    {
        let node = direct[i].node_name.as_str();
        assert(ports.skip(i as int)[0] == port_view(direct@[i as int]));
        assert(ports.skip(i as int).drop_first() =~= ports.skip(i as int + 1));
        if !is_managed_node(node) {
            return Some(String::from_str(node));
        }
        i = i + 1;
    }
    assert(ports.skip(n as int) =~= Seq::<(Seq<char>, Seq<char>, Option<u32>)>::empty());
    None
}

/// The device the chain currently feeds, through the EQ or directly; never
/// one of the daemon's own nodes.
pub fn current_device_target(links: &Vec<Link>, chain: EqChainId) -> (r: Option<String>)
    ensures
        match r {
            Some(d) => current_target_spec(links@, chain) == Some(d@),
            None => current_target_spec(links@, chain) is None,
        },
{
    proof {
        reveal_strlit("output_FL");
        reveal_strlit("monitor_FL");
    }
    let eq_out = port(output_node_name(chain), "output_FL");
    let out = targets_of(links, &eq_out);
    let through = find_unmanaged(&out);
    if through.is_some() {
        return through;
    }
    let monitor = port(source_sink_for(chain), "monitor_FL");
    let direct = targets_of(links, &monitor);
    find_unmanaged(&direct)
}

/// One change to the graph.
#[derive(Clone, Debug, PartialEq, Eq)]
pub enum GraphStep {
    Unlink { source: PortRef, target: PortRef },
    Link { source: PortRef, target: PortRef },
}

/// What a step says: whether it links (else unlinks), from, to.
pub open spec fn step_view(s: GraphStep) -> (
    bool,
    (Seq<char>, Seq<char>, Option<u32>),
    (Seq<char>, Seq<char>, Option<u32>),
) {
    match s {
        GraphStep::Unlink { source, target } => (false, port_view(source), port_view(target)),
        GraphStep::Link { source, target } => (true, port_view(source), port_view(target)),
    }
}

pub open spec fn steps_view(v: Seq<GraphStep>) -> Seq<
    (bool, (Seq<char>, Seq<char>, Option<u32>), (Seq<char>, Seq<char>, Option<u32>)),
> {
    v.map_values(|s: GraphStep| step_view(s))
}

/// Unlinks `source` from each of `ts` that is not the port `keep`.
pub open spec fn unlink_others(
    source: (Seq<char>, Seq<char>, Option<u32>),
    ts: Seq<(Seq<char>, Seq<char>, Option<u32>)>,
    keep: (Seq<char>, Seq<char>, Option<u32>),
) -> Seq<(bool, (Seq<char>, Seq<char>, Option<u32>), (Seq<char>, Seq<char>, Option<u32>))>
    decreases ts.len(),
{
    if ts.len() == 0 {
        Seq::empty()
    } else {
        let rest = unlink_others(source, ts.drop_last(), keep);
        if !same_port_spec(ts.last(), keep) {
            rest.push((false, source, ts.last()))
        } else {
            rest
        }
    }
}

/// Unlinks `source` from each of `ts` that lies on another node than `node`.
pub open spec fn unlink_off_node(
    source: (Seq<char>, Seq<char>, Option<u32>),
    ts: Seq<(Seq<char>, Seq<char>, Option<u32>)>,
    node: Seq<char>,
) -> Seq<(bool, (Seq<char>, Seq<char>, Option<u32>), (Seq<char>, Seq<char>, Option<u32>))>
    decreases ts.len(),
{
    if ts.len() == 0 {
        Seq::empty()
    } else {
        let rest = unlink_off_node(source, ts.drop_last(), node);
        if ts.last().0 != node {
            rest.push((false, source, ts.last()))
        } else {
            rest
        }
    }
}

/// Point `source` at `target` alone: drop its other links, then link.
pub open spec fn relink_spec(
    links: Seq<Link>,
    source: (Seq<char>, Seq<char>, Option<u32>),
    target: (Seq<char>, Seq<char>, Option<u32>),
) -> Seq<(bool, (Seq<char>, Seq<char>, Option<u32>), (Seq<char>, Seq<char>, Option<u32>))> {
    unlink_others(source, targets_spec(links, source), target).push((true, source, target))
}

pub open spec fn any_same_spec(
    ts: Seq<(Seq<char>, Seq<char>, Option<u32>)>,
    p: (Seq<char>, Seq<char>, Option<u32>),
) -> bool {
    exists|i: int| 0 <= i < ts.len() && same_port_spec(#[trigger] ts[i], p)
}

pub open spec fn monitor_port(chain: EqChainId, ch: Seq<char>) -> (Seq<char>, Seq<char>, Option<u32>) {
    (source_sink_spec(chain), "monitor_"@ + ch, None)
}

pub open spec fn input_port(chain: EqChainId, ch: Seq<char>) -> (Seq<char>, Seq<char>, Option<u32>) {
    (sink_node_spec(chain), "input_"@ + ch, None)
}

pub open spec fn output_port(chain: EqChainId, ch: Seq<char>) -> (Seq<char>, Seq<char>, Option<u32>) {
    (output_node_spec(chain), "output_"@ + ch, None)
}

pub open spec fn playback_port(device: Seq<char>, ch: Seq<char>) -> (Seq<char>, Seq<char>, Option<u32>) {
    (device, "playback_"@ + ch, None)
}

/// One channel of inserting the EQ: the monitor keeps only its link into
/// the chain (added if missing), and the chain's output feeds the device.
pub open spec fn through_eq_channel(
    links: Seq<Link>,
    chain: EqChainId,
    device: Seq<char>,
    ch: Seq<char>,
) -> Seq<(bool, (Seq<char>, Seq<char>, Option<u32>), (Seq<char>, Seq<char>, Option<u32>))> {
    let m = monitor_port(chain, ch);
    let ts = targets_spec(links, m);
    let dropped = unlink_off_node(m, ts, sink_node_spec(chain));
    let linked = if any_same_spec(ts, input_port(chain, ch)) {
        dropped
    } else {
        dropped.push((true, m, input_port(chain, ch)))
    };
    linked + relink_spec(links, output_port(chain, ch), playback_port(device, ch))
}

fn link_step(source: &PortRef, target: &PortRef) -> (r: GraphStep)
    ensures
        step_view(r) == (true, port_view(*source), port_view(*target)),
{
    GraphStep::Link { source: copy_port(source), target: copy_port(target) }
}

fn unlink_step(source: &PortRef, target: &PortRef) -> (r: GraphStep)
    ensures
        step_view(r) == (false, port_view(*source), port_view(*target)),
{
    GraphStep::Unlink { source: copy_port(source), target: copy_port(target) }
}

fn push_step(steps: &mut Vec<GraphStep>, s: GraphStep)
    ensures
        steps_view(final(steps)@) == steps_view(old(steps)@).push(step_view(s)),
{
    let ghost before = steps@;
    steps.push(s);
    assert(steps_view(steps@) =~= steps_view(before).push(step_view(s)));
}

/// Appends an unlink from `source` for each of `ts` that is not `keep`.
fn push_unlink_others(steps: &mut Vec<GraphStep>, source: &PortRef, ts: &Vec<PortRef>, keep: &PortRef)
    ensures
        steps_view(final(steps)@) == steps_view(old(steps)@) + unlink_others(
            port_view(*source),
            ports_view(ts@),
            port_view(*keep),
        ),
{
    let ghost base = steps_view(steps@);
    let ghost pv = ports_view(ts@);
    let n = ts.len();
    let mut i: usize = 0;
    assert(unlink_others(port_view(*source), pv.take(0), port_view(*keep)) =~= Seq::empty());
    assert(base + Seq::empty() =~= base);
    while i < n
        invariant
            n == ts@.len(),
            pv == ports_view(ts@),
            i <= n,
            steps_view(steps@) == base + unlink_others(
                port_view(*source),
                pv.take(i as int),
                port_view(*keep),
            ),
        decreases n - i,
    {
        let t = &ts[i];
        assert(pv.take(i as int + 1).drop_last() =~= pv.take(i as int));
        assert(pv.take(i as int + 1).last() == port_view(ts@[i as int]));
        let ghost prev = unlink_others(port_view(*source), pv.take(i as int), port_view(*keep));
        if !same_port(t, keep) {
            push_step(steps, unlink_step(source, t));
            assert(base + prev.push((false, port_view(*source), port_view(*t))) =~= (base + prev).push(
                (false, port_view(*source), port_view(*t)),
            ));
        }
        i = i + 1;
    }
    assert(pv.take(n as int) =~= pv);
}

/// Appends an unlink from `source` for each of `ts` on another node than
/// `node`.
fn push_unlink_off_node(steps: &mut Vec<GraphStep>, source: &PortRef, ts: &Vec<PortRef>, node: &str)
    ensures
        steps_view(final(steps)@) == steps_view(old(steps)@) + unlink_off_node(
            port_view(*source),
            ports_view(ts@),
            node@,
        ),
{
    let ghost base = steps_view(steps@);
    let ghost pv = ports_view(ts@);
    let n = ts.len();
    let mut i: usize = 0;
    assert(unlink_off_node(port_view(*source), pv.take(0), node@) =~= Seq::empty());
    assert(base + Seq::empty() =~= base);
    while i < n
        invariant
            n == ts@.len(),
            pv == ports_view(ts@),
            i <= n,
            steps_view(steps@) == base + unlink_off_node(port_view(*source), pv.take(i as int), node@),
        decreases n - i,
    {
        let t = &ts[i];
        assert(pv.take(i as int + 1).drop_last() =~= pv.take(i as int));
        assert(pv.take(i as int + 1).last() == port_view(ts@[i as int]));
        let ghost prev = unlink_off_node(port_view(*source), pv.take(i as int), node@);
        if !str_eq(t.node_name.as_str(), node) {
            push_step(steps, unlink_step(source, t));
            assert(base + prev.push((false, port_view(*source), port_view(*t))) =~= (base + prev).push(
                (false, port_view(*source), port_view(*t)),
            ));
        }
        i = i + 1;
    }
    assert(pv.take(n as int) =~= pv);
}

fn any_same_port(ts: &Vec<PortRef>, p: &PortRef) -> (r: bool)
    ensures
        r == any_same_spec(ports_view(ts@), port_view(*p)),
{
    let ghost pv = ports_view(ts@);
    let n = ts.len();
    let mut i: usize = 0;
    while i < n
        invariant
            n == ts@.len(),
            pv == ports_view(ts@),
            i <= n,
            forall|k: int| 0 <= k < i ==> !same_port_spec(#[trigger] pv[k], port_view(*p)),
        decreases n - i,
    {
        assert(pv[i as int] == port_view(ts@[i as int]));
        if same_port(&ts[i], p) {
            return true;
        }
        i = i + 1;
    }
    false
}

/// Appends the steps that point `source` at `target` alone.
fn push_relink(steps: &mut Vec<GraphStep>, links: &Vec<Link>, source: &PortRef, target: &PortRef)
    ensures
        steps_view(final(steps)@) == steps_view(old(steps)@) + relink_spec(
            links@,
            port_view(*source),
            port_view(*target),
        ),
{
    let ghost base = steps_view(steps@);
    let existing = targets_of(links, source);
    push_unlink_others(steps, source, &existing, target);
    let ghost mid = steps_view(steps@);
    push_step(steps, link_step(source, target));
    assert(steps_view(steps@) =~= base + relink_spec(links@, port_view(*source), port_view(*target)));
}

fn named(prefix: &str, ch: &str) -> (r: String)
    ensures
        r@ == prefix@ + ch@,
{
    let mut s = String::from_str(prefix);
    s.append(ch);
    s
}

fn push_through_eq_channel(
    steps: &mut Vec<GraphStep>,
    links: &Vec<Link>,
    chain: EqChainId,
    device: &str,
    ch: &str,
)
    ensures
        steps_view(final(steps)@) == steps_view(old(steps)@) + through_eq_channel(
            links@,
            chain,
            device@,
            ch@,
        ),
{
    let ghost base = steps_view(steps@);
    let eq_input = sink_node_name(chain);
    let monitor = port(source_sink_for(chain), named("monitor_", ch).as_str());
    let input = port(eq_input, named("input_", ch).as_str());
    let ts = targets_of(links, &monitor);
    push_unlink_off_node(steps, &monitor, &ts, eq_input);
    let ghost after_drop = steps_view(steps@);
    if !any_same_port(&ts, &input) {
        push_step(steps, link_step(&monitor, &input));
    }
    let ghost after_link = steps_view(steps@);
    let out = port(output_node_name(chain), named("output_", ch).as_str());
    let dev = port(device, named("playback_", ch).as_str());
    push_relink(steps, links, &out, &dev);
    let ghost m = monitor_port(chain, ch@);
    let ghost dropped = unlink_off_node(m, targets_spec(links@, m), sink_node_spec(chain));
    assert(after_drop == base + dropped);
    assert(steps_view(steps@) =~= base + through_eq_channel(links@, chain, device@, ch@));
}

/// Inserting the EQ chain between the sink and `device`: refused for one of
/// the daemon's own nodes, else the left channel's steps then the right's.
pub fn wire_through_eq(links: &Vec<Link>, chain: EqChainId, device: &str) -> (r: Result<
    Vec<GraphStep>,
    CoreError,
>)
    ensures
        is_managed_spec(device@) ==> (r matches Err(CoreError::Invalid(m)) && m@
            == feedback_message(device@)),
        !is_managed_spec(device@) ==> (r matches Ok(steps) && steps_view(steps@)
            == through_eq_channel(links@, chain, device@, "FL"@) + through_eq_channel(
            links@,
            chain,
            device@,
            "FR"@,
        )),
{
    reject_managed(device)?;
    let mut steps: Vec<GraphStep> = Vec::new();
    push_through_eq_channel(&mut steps, links, chain, device, "FL");
    push_through_eq_channel(&mut steps, links, chain, device, "FR");
    assert(steps_view(steps@) =~= through_eq_channel(links@, chain, device@, "FL"@)
        + through_eq_channel(links@, chain, device@, "FR"@));
    Ok(steps)
}

/// Pointing the chain's output at another device, the input side left
/// alone; refused for one of the daemon's own nodes.
pub fn route_eq_output(links: &Vec<Link>, chain: EqChainId, device: &str) -> (r: Result<
    Vec<GraphStep>,
    CoreError,
>)
    ensures
        is_managed_spec(device@) ==> (r matches Err(CoreError::Invalid(m)) && m@
            == feedback_message(device@)),
        !is_managed_spec(device@) ==> (r matches Ok(steps) && steps_view(steps@) == relink_spec(
            links@,
            output_port(chain, "FL"@),
            playback_port(device@, "FL"@),
        ) + relink_spec(links@, output_port(chain, "FR"@), playback_port(device@, "FR"@))),
{
    reject_managed(device)?;
    let mut steps: Vec<GraphStep> = Vec::new();
    let out_l = port(output_node_name(chain), named("output_", "FL").as_str());
    let dev_l = port(device, named("playback_", "FL").as_str());
    push_relink(&mut steps, links, &out_l, &dev_l);
    let out_r = port(output_node_name(chain), named("output_", "FR").as_str());
    let dev_r = port(device, named("playback_", "FR").as_str());
    push_relink(&mut steps, links, &out_r, &dev_r);
    assert(steps_view(steps@) =~= relink_spec(
        links@,
        output_port(chain, "FL"@),
        playback_port(device@, "FL"@),
    ) + relink_spec(links@, output_port(chain, "FR"@), playback_port(device@, "FR"@)));
    Ok(steps)
}

/// Bypassing the EQ: each monitor channel straight to `device`. No guard
/// here: callers take the device from the two functions above.
pub fn wire_direct(links: &Vec<Link>, chain: EqChainId, device: &str) -> (steps: Vec<GraphStep>)
    ensures
        steps_view(steps@) == relink_spec(
            links@,
            monitor_port(chain, "FL"@),
            playback_port(device@, "FL"@),
        ) + relink_spec(links@, monitor_port(chain, "FR"@), playback_port(device@, "FR"@)),
{
    let mut steps: Vec<GraphStep> = Vec::new();
    let mon_l = port(source_sink_for(chain), named("monitor_", "FL").as_str());
    let dev_l = port(device, named("playback_", "FL").as_str());
    push_relink(&mut steps, links, &mon_l, &dev_l);
    let mon_r = port(source_sink_for(chain), named("monitor_", "FR").as_str());
    let dev_r = port(device, named("playback_", "FR").as_str());
    push_relink(&mut steps, links, &mon_r, &dev_r);
    assert(steps_view(steps@) =~= relink_spec(
        links@,
        monitor_port(chain, "FL"@),
        playback_port(device@, "FL"@),
    ) + relink_spec(links@, monitor_port(chain, "FR"@), playback_port(device@, "FR"@)));
    steps
}

/// An optional name as a sequence of characters.
pub open spec fn opt_name_view(o: Option<&str>) -> Option<Seq<char>> {
    match o {
        Some(x) => Some(x@),
        None => None,
    }
}

/// An optional list of names as sequences of characters.
pub open spec fn opt_names_view(o: Option<&Vec<String>>) -> Option<Seq<Seq<char>>> {
    match o {
        Some(v) => Some(names_view(v@)),
        None => None,
    }
}

/// The device a chain is wired to when its filter chain starts: the one it
/// fed before the start (`before`), else a real hardware output.
pub open spec fn start_target_spec(
    before: Seq<Link>,
    chain: EqChainId,
    default: Option<Seq<char>>,
    sinks: Option<Seq<Seq<char>>>,
) -> Option<Seq<char>> {
    match current_target_spec(before, chain) {
        Some(d) => Some(d),
        None => fallback_spec(default, sinks),
    }
}

proof fn lemma_physical_unmanaged(name: Seq<char>)
    requires
        is_physical_output(name),
    ensures
        !is_managed_spec(name),
{
    reveal_strlit("alsa_output");
    reveal_strlit("bluez_output");
    reveal_strlit("game_sink");
    reveal_strlit("chat_sink");
    reveal_strlit("penguinwave_eq_game");
    reveal_strlit("penguinwave_eq_game_out");
    reveal_strlit("penguinwave_eq_chat");
    reveal_strlit("penguinwave_eq_chat_out");
    if has_prefix(name, "alsa_output"@) {
        assert(name[0] == name.take(11)[0]);
        assert(name[0] == 'a');
    } else {
        assert(name[0] == name.take(12)[0]);
        assert(name[0] == 'b');
    }
    assert(GAME_SINK@[0] == 'g');
    assert(CHAT_SINK@[0] == 'c');
}

proof fn lemma_first_physical_is_physical(names: Seq<Seq<char>>)
    ensures
        first_physical(names) matches Some(d) ==> is_physical_output(d),
    decreases names.len(),
{
    if names.len() > 0 && !is_physical_output(names[0]) {
        lemma_first_physical_is_physical(names.drop_first());
    }
}

proof fn lemma_first_unmanaged_is_unmanaged(ports: Seq<(Seq<char>, Seq<char>, Option<u32>)>)
    ensures
        first_unmanaged(ports) matches Some(d) ==> !is_managed_spec(d),
    decreases ports.len(),
{
    if ports.len() > 0 && is_managed_spec(ports[0].0) {
        lemma_first_unmanaged_is_unmanaged(ports.drop_first());
    }
}

/// Neither the device a chain currently feeds nor the one it is wired to at
/// start is ever one of the daemon's own nodes: a stale link into a managed
/// node is never trusted.
pub proof fn lemma_start_target_unmanaged(
    before: Seq<Link>,
    chain: EqChainId,
    default: Option<Seq<char>>,
    sinks: Option<Seq<Seq<char>>>,
)
    ensures
        current_target_spec(before, chain) matches Some(d) ==> !is_managed_spec(d),
        start_target_spec(before, chain, default, sinks) matches Some(d) ==> !is_managed_spec(d),
{
    lemma_first_unmanaged_is_unmanaged(
        targets_spec(before, (output_node_spec(chain), "output_FL"@, None)),
    );
    lemma_first_unmanaged_is_unmanaged(
        targets_spec(before, (source_sink_spec(chain), "monitor_FL"@, None)),
    );
    if let Some(s) = sinks {
        lemma_first_physical_is_physical(s);
        if let Some(d) = first_physical(s) {
            lemma_physical_unmanaged(d);
        }
    }
}

/// Wiring one chain when its filter chain starts. `before` is the graph read
/// before the start, `now` the graph after it; `default` and `sinks` are the
/// default sink and the sinks, where the graph answered. The chain goes
/// through the EQ to the device it fed before, else to a real hardware
/// output; `None` when there is neither.
pub fn start_chain_wiring(
    before: &Vec<Link>,
    now: &Vec<Link>,
    chain: EqChainId,
    default: Option<&str>,
    sinks: Option<&Vec<String>>,
) -> (r: Option<Vec<GraphStep>>)
    ensures
        start_target_spec(before@, chain, opt_name_view(default), opt_names_view(sinks)) is None
            ==> r is None,
        start_target_spec(before@, chain, opt_name_view(default), opt_names_view(sinks)) matches Some(d)
            ==> (r matches Some(steps) && steps_view(steps@) == through_eq_channel(
            now@,
            chain,
            d,
            "FL"@,
        ) + through_eq_channel(now@, chain, d, "FR"@)),
{
    proof {
        lemma_start_target_unmanaged(before@, chain, opt_name_view(default), opt_names_view(sinks));
    }
    let device = match current_device_target(before, chain) {
        Some(d) => Some(d),
        None => fallback_output_device(default, sinks),
    };
    match device {
        None => None,
        Some(d) => match wire_through_eq(now, chain, d.as_str()) {
            Ok(steps) => Some(steps),
            Err(_) => None,
        },
    }
}

proof fn lemma_unlink_others_unlinks(
    source: (Seq<char>, Seq<char>, Option<u32>),
    ts: Seq<(Seq<char>, Seq<char>, Option<u32>)>,
    keep: (Seq<char>, Seq<char>, Option<u32>),
)
    ensures
        forall|i: int|
            0 <= i < unlink_others(source, ts, keep).len() ==> !(#[trigger] unlink_others(
                source,
                ts,
                keep,
            )[i]).0,
    decreases ts.len(),
{
    if ts.len() > 0 {
        lemma_unlink_others_unlinks(source, ts.drop_last(), keep);
        let rest = unlink_others(source, ts.drop_last(), keep);
        let r = unlink_others(source, ts, keep);
        assert forall|i: int| 0 <= i < r.len() implies !(#[trigger] r[i]).0 by {
            if i < rest.len() {
                assert(r[i] == rest[i]);
            }
        }
    }
}

proof fn lemma_unlink_off_node_unlinks(
    source: (Seq<char>, Seq<char>, Option<u32>),
    ts: Seq<(Seq<char>, Seq<char>, Option<u32>)>,
    node: Seq<char>,
)
    ensures
        forall|i: int|
            0 <= i < unlink_off_node(source, ts, node).len() ==> !(#[trigger] unlink_off_node(
                source,
                ts,
                node,
            )[i]).0,
    decreases ts.len(),
{
    if ts.len() > 0 {
        lemma_unlink_off_node_unlinks(source, ts.drop_last(), node);
        let rest = unlink_off_node(source, ts.drop_last(), node);
        let r = unlink_off_node(source, ts, node);
        assert forall|i: int| 0 <= i < r.len() implies !(#[trigger] r[i]).0 by {
            if i < rest.len() {
                assert(r[i] == rest[i]);
            }
        }
    }
}

pub open spec fn links_only_to(
    plan: Seq<(bool, (Seq<char>, Seq<char>, Option<u32>), (Seq<char>, Seq<char>, Option<u32>))>,
    a: Seq<char>,
    b: Seq<char>,
) -> bool {
    forall|i: int| 0 <= i < plan.len() && (#[trigger] plan[i]).0 ==> plan[i].2.0 == a || plan[i].2.0 == b
}

/// Every link that inserting the EQ makes ends at the chain's own input or
/// at the chosen device, which `wire_through_eq` never lets be a managed
/// node: the chain cannot be made to feed itself.
pub proof fn lemma_eq_links_avoid_feedback(links: Seq<Link>, chain: EqChainId, device: Seq<char>)
    ensures
        links_only_to(
            through_eq_channel(links, chain, device, "FL"@) + through_eq_channel(
                links,
                chain,
                device,
                "FR"@,
            ),
            sink_node_spec(chain),
            device,
        ),
{
    lemma_channel_links(links, chain, device, "FL"@);
    lemma_channel_links(links, chain, device, "FR"@);
    let a = through_eq_channel(links, chain, device, "FL"@);
    let b = through_eq_channel(links, chain, device, "FR"@);
    assert forall|i: int| 0 <= i < (a + b).len() && (#[trigger] (a + b)[i]).0 implies (a + b)[i].2.0
        == sink_node_spec(chain) || (a + b)[i].2.0 == device by {
        if i < a.len() {
            assert((a + b)[i] == a[i]);
        } else {
            assert((a + b)[i] == b[i - a.len()]);
        }
    }
}

proof fn lemma_channel_links(links: Seq<Link>, chain: EqChainId, device: Seq<char>, ch: Seq<char>)
    ensures
        links_only_to(through_eq_channel(links, chain, device, ch), sink_node_spec(chain), device),
{
    let m = monitor_port(chain, ch);
    let ts = targets_spec(links, m);
    let dropped = unlink_off_node(m, ts, sink_node_spec(chain));
    let linked = if any_same_spec(ts, input_port(chain, ch)) {
        dropped
    } else {
        dropped.push((true, m, input_port(chain, ch)))
    };
    let out = output_port(chain, ch);
    let un = unlink_others(out, targets_spec(links, out), playback_port(device, ch));
    let re = relink_spec(links, out, playback_port(device, ch));
    lemma_unlink_off_node_unlinks(m, ts, sink_node_spec(chain));
    lemma_unlink_others_unlinks(out, targets_spec(links, out), playback_port(device, ch));
    let plan = linked + re;
    assert forall|i: int| 0 <= i < plan.len() && (#[trigger] plan[i]).0 implies plan[i].2.0
        == sink_node_spec(chain) || plan[i].2.0 == device by {
        if i < dropped.len() {
            assert(plan[i] == dropped[i]);
        } else if i < linked.len() {
            assert(plan[i] == (true, m, input_port(chain, ch)));
        } else if i < linked.len() + un.len() {
            assert(plan[i] == un[i - linked.len()]);
        } else {
            assert(plan[i] == (true, out, playback_port(device, ch)));
        }
    }
}

} // verus!
