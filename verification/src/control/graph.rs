//! What a wiring plan does to the graph: the links present after its steps
//! are applied in order, an unlink removing every link between the two
//! ports and a link adding one.

use crate::control::nodes::sink_node_spec;
use crate::control::wiring::{
    monitor_port, output_port, playback_port, relink_spec, same_port_spec, targets_spec,
    through_eq_channel, unlink_off_node, unlink_others, input_port, any_same_spec,
};
use crate::proto::{port_view, EqChainId, Link};
use vstd::prelude::*;
use vstd::string::*;

verus! {

/// A port as the plans name it: node, port name, graph id where known.
pub type PortV = (Seq<char>, Seq<char>, Option<u32>);

/// One step of a plan: whether it links (else unlinks), from, to.
pub type StepV = (bool, PortV, PortV);

/// The graph's links, each from a source port to a target port.
pub open spec fn graph_of(links: Seq<Link>) -> Set<(PortV, PortV)> {
    Set::new(|e: (PortV, PortV)| exists|i: int| 0 <= i < links.len() && e == (#[trigger] port_view(links[i].source), port_view(links[i].target)))
}

/// The graph after one step.
pub open spec fn apply_step(g: Set<(PortV, PortV)>, s: StepV) -> Set<(PortV, PortV)> {
    if s.0 {
        g.insert((s.1, s.2))
    } else {
        g.filter(|e: (PortV, PortV)| !(same_port_spec(e.0, s.1) && same_port_spec(e.1, s.2)))
    }
}

/// The graph after the steps, in order.
pub open spec fn apply_steps(g: Set<(PortV, PortV)>, steps: Seq<StepV>) -> Set<(PortV, PortV)>
    decreases steps.len(),
{
    if steps.len() == 0 {
        g
    } else {
        apply_step(apply_steps(g, steps.drop_last()), steps.last())
    }
}

/// Every link out of `source` ends at `target`.
pub open spec fn feeds_only(g: Set<(PortV, PortV)>, source: PortV, target: PortV) -> bool {
    forall|e: (PortV, PortV)| #[trigger] g.contains(e) && same_port_spec(e.0, source) ==> same_port_spec(e.1, target)
}

/// No port is named by both `a` and `b`.
pub open spec fn disjoint(a: PortV, b: PortV) -> bool {
    forall|p: PortV| !(#[trigger] same_port_spec(p, a) && same_port_spec(p, b))
}

/// Every link out of `source` in `g` ends at one of `ts`.
pub open spec fn covered(g: Set<(PortV, PortV)>, source: PortV, ts: Seq<PortV>) -> bool {
    forall|e: (PortV, PortV)| #[trigger] g.contains(e) && same_port_spec(e.0, source) ==> exists|i: int| 0 <= i < ts.len() && ts[i] == e.1
}

proof fn lemma_apply_concat(g: Set<(PortV, PortV)>, a: Seq<StepV>, b: Seq<StepV>)
    ensures
        apply_steps(g, a + b) == apply_steps(apply_steps(g, a), b),
    decreases b.len(),
{
    if b.len() == 0 {
        assert(a + b =~= a);
    } else {
        lemma_apply_concat(g, a, b.drop_last());
        assert((a + b).drop_last() =~= a + b.drop_last());
        assert((a + b).last() == b.last());
    }
}

proof fn lemma_targets_cover(links: Seq<Link>, source: PortV)
    ensures
        covered(graph_of(links), source, targets_spec(links, source)),
    decreases links.len(),
{
    if links.len() > 0 {
        let pre = links.drop_last();
        lemma_targets_cover(pre, source);
        let ts = targets_spec(links, source);
        let pts = targets_spec(pre, source);
        assert forall|e: (PortV, PortV)| #[trigger] graph_of(links).contains(e) && same_port_spec(e.0, source) implies exists|i: int| 0 <= i < ts.len() && ts[i] == e.1 by {
            let i = choose|i: int| 0 <= i < links.len() && e == (#[trigger] port_view(links[i].source), port_view(links[i].target));
            if i < pre.len() {
                assert(pre[i] == links[i]);
                assert(graph_of(pre).contains(e));
                let j = choose|j: int| 0 <= j < pts.len() && pts[j] == e.1;
                assert(ts[j] == pts[j]);
            } else {
                assert(links[i] == links.last());
                assert(ts[ts.len() - 1] == e.1);
            }
        }
    }
}

/// Steps whose source shares no port with `s` leave the links out of `s`
/// as they were.
proof fn lemma_disjoint_steps_keep(g: Set<(PortV, PortV)>, steps: Seq<StepV>, s: PortV)
    requires
        forall|k: int| 0 <= k < steps.len() ==> disjoint(#[trigger] steps[k].1, s),
    ensures
        forall|e: (PortV, PortV)| same_port_spec(e.0, s) ==> (#[trigger] apply_steps(g, steps).contains(e) == g.contains(e)),
    decreases steps.len(),
{
    if steps.len() > 0 {
        let pre = steps.drop_last();
        assert forall|k: int| 0 <= k < pre.len() implies disjoint(#[trigger] pre[k].1, s) by {
            assert(pre[k] == steps[k]);
        }
        lemma_disjoint_steps_keep(g, pre, s);
        let st = steps.last();
        assert(disjoint(steps[steps.len() - 1].1, s));
        assert forall|e: (PortV, PortV)| same_port_spec(e.0, s) implies (#[trigger] apply_steps(g, steps).contains(e) == g.contains(e)) by {
            assert(!(same_port_spec(e.0, st.1) && same_port_spec(e.0, s)));
            let h = apply_steps(g, pre);
            assert(apply_steps(g, steps) == apply_step(h, st));
            assert(h.contains(e) == g.contains(e));
            if st.0 {
                assert(same_port_spec(st.1, st.1));
                assert(apply_step(h, st).contains(e) == (h.contains(e) || e == (st.1, st.2)));
            } else {
                assert(apply_step(h, st).contains(e) == h.contains(e));
            }
        }
    }
}

proof fn lemma_unlink_others_removes(g: Set<(PortV, PortV)>, source: PortV, ts: Seq<PortV>, keep: PortV)
    ensures
        forall|e: (PortV, PortV)| #[trigger] apply_steps(g, unlink_others(source, ts, keep)).contains(e) ==> g.contains(e),
        forall|e: (PortV, PortV)|
            #[trigger] apply_steps(g, unlink_others(source, ts, keep)).contains(e) && same_port_spec(e.0, source)
                && (exists|i: int| 0 <= i < ts.len() && ts[i] == e.1) ==> same_port_spec(e.1, keep),
    decreases ts.len(),
{
    if ts.len() > 0 {
        let pre = ts.drop_last();
        lemma_unlink_others_removes(g, source, pre, keep);
        let rest = unlink_others(source, pre, keep);
        let t = ts.last();
        if !same_port_spec(t, keep) {
            assert(unlink_others(source, ts, keep) == rest.push((false, source, t)));
            assert(rest.push((false, source, t)).drop_last() =~= rest);
            let h = apply_steps(g, rest);
            assert forall|e: (PortV, PortV)|
                #[trigger] apply_steps(g, unlink_others(source, ts, keep)).contains(e) && same_port_spec(e.0, source)
                    && (exists|i: int| 0 <= i < ts.len() && ts[i] == e.1) implies same_port_spec(e.1, keep) by {
                let i = choose|i: int| 0 <= i < ts.len() && ts[i] == e.1;
                assert(h.contains(e));
                if i < pre.len() {
                    assert(pre[i] == ts[i]);
                } else {
                    assert(e.1 == t);
                    assert(same_port_spec(e.1, t));
                }
            }
        } else {
            assert(unlink_others(source, ts, keep) == rest);
            assert forall|e: (PortV, PortV)|
                #[trigger] apply_steps(g, unlink_others(source, ts, keep)).contains(e) && same_port_spec(e.0, source)
                    && (exists|i: int| 0 <= i < ts.len() && ts[i] == e.1) implies same_port_spec(e.1, keep) by {
                let i = choose|i: int| 0 <= i < ts.len() && ts[i] == e.1;
                if i < pre.len() {
                    assert(pre[i] == ts[i]);
                } else {
                    assert(e.1 == t);
                }
            }
        }
    }
}

proof fn lemma_relink_feeds(g: Set<(PortV, PortV)>, links: Seq<Link>, source: PortV, target: PortV)
    requires
        covered(g, source, targets_spec(links, source)),
    ensures
        feeds_only(apply_steps(g, relink_spec(links, source, target)), source, target),
        apply_steps(g, relink_spec(links, source, target)).contains((source, target)),
{
    let ts = targets_spec(links, source);
    let un = unlink_others(source, ts, target);
    lemma_unlink_others_removes(g, source, ts, target);
    let steps = relink_spec(links, source, target);
    assert(steps.drop_last() =~= un);
    let h = apply_steps(g, un);
    assert(apply_steps(g, steps) == h.insert((source, target)));
    assert(same_port_spec(target, target));
    assert forall|e: (PortV, PortV)| #[trigger] apply_steps(g, steps).contains(e) && same_port_spec(e.0, source) implies same_port_spec(e.1, target) by {
        if e != (source, target) {
            assert(h.contains(e));
            assert(g.contains(e));
            let i = choose|i: int| 0 <= i < ts.len() && ts[i] == e.1;
        }
    }
}

proof fn lemma_unlink_off_node_source(source: PortV, ts: Seq<PortV>, node: Seq<char>)
    ensures
        forall|k: int| 0 <= k < unlink_off_node(source, ts, node).len() ==> (#[trigger] unlink_off_node(source, ts, node)[k]).1 == source,
    decreases ts.len(),
{
    if ts.len() > 0 {
        lemma_unlink_off_node_source(source, ts.drop_last(), node);
        let rest = unlink_off_node(source, ts.drop_last(), node);
        let r = unlink_off_node(source, ts, node);
        assert forall|k: int| 0 <= k < r.len() implies (#[trigger] r[k]).1 == source by {
            if k < rest.len() {
                assert(r[k] == rest[k]);
            }
        }
    }
}

proof fn lemma_unlink_others_source(source: PortV, ts: Seq<PortV>, keep: PortV)
    ensures
        forall|k: int| 0 <= k < unlink_others(source, ts, keep).len() ==> (#[trigger] unlink_others(source, ts, keep)[k]).1 == source,
    decreases ts.len(),
{
    if ts.len() > 0 {
        lemma_unlink_others_source(source, ts.drop_last(), keep);
        let rest = unlink_others(source, ts.drop_last(), keep);
        let r = unlink_others(source, ts, keep);
        assert forall|k: int| 0 <= k < r.len() implies (#[trigger] r[k]).1 == source by {
            if k < rest.len() {
                assert(r[k] == rest[k]);
            }
        }
    }
}

/// The monitor's part of one channel, before the output is relinked.
pub open spec fn monitor_part(links: Seq<Link>, chain: EqChainId, ch: Seq<char>) -> Seq<StepV> {
    let m = monitor_port(chain, ch);
    let ts = targets_spec(links, m);
    let dropped = unlink_off_node(m, ts, sink_node_spec(chain));
    if any_same_spec(ts, input_port(chain, ch)) {
        dropped
    } else {
        dropped.push((true, m, input_port(chain, ch)))
    }
}

/// Every step of one channel comes from that channel's monitor or output.
proof fn lemma_channel_sources(links: Seq<Link>, chain: EqChainId, device: Seq<char>, ch: Seq<char>)
    ensures
        through_eq_channel(links, chain, device, ch) == monitor_part(links, chain, ch) + relink_spec(
            links,
            output_port(chain, ch),
            playback_port(device, ch),
        ),
        forall|k: int| 0 <= k < monitor_part(links, chain, ch).len() ==> (#[trigger] monitor_part(links, chain, ch)[k]).1 == monitor_port(chain, ch),
        forall|k: int|
            0 <= k < through_eq_channel(links, chain, device, ch).len() ==> (#[trigger] through_eq_channel(links, chain, device, ch)[k]).1
                == monitor_port(chain, ch) || through_eq_channel(links, chain, device, ch)[k].1 == output_port(chain, ch),
{
    let m = monitor_port(chain, ch);
    let ts = targets_spec(links, m);
    let dropped = unlink_off_node(m, ts, sink_node_spec(chain));
    lemma_unlink_off_node_source(m, ts, sink_node_spec(chain));
    let mp = monitor_part(links, chain, ch);
    assert forall|k: int| 0 <= k < mp.len() implies (#[trigger] mp[k]).1 == m by {
        if k < dropped.len() {
            assert(mp[k] == dropped[k]);
        }
    }
    let out = output_port(chain, ch);
    let un = unlink_others(out, targets_spec(links, out), playback_port(device, ch));
    lemma_unlink_others_source(out, targets_spec(links, out), playback_port(device, ch));
    let re = relink_spec(links, out, playback_port(device, ch));
    let all = mp + re;
    assert forall|k: int| 0 <= k < all.len() implies (#[trigger] all[k]).1 == m || all[k].1 == out by {
        if k < mp.len() {
            assert(all[k] == mp[k]);
        } else if k < mp.len() + un.len() {
            assert(all[k] == un[k - mp.len()]);
        } else {
            assert(all[k] == (true, out, playback_port(device, ch)));
        }
    }
}

/// Two ports named without an id, by different names, share no port.
proof fn lemma_disjoint_named(a: PortV, b: PortV)
    requires
        a.2 is None,
        b.2 is None,
        a.1 != b.1,
    ensures
        disjoint(a, b),
{
}

proof fn lemma_channel_ports_disjoint(chain: EqChainId)
    ensures
        disjoint(monitor_port(chain, "FL"@), output_port(chain, "FL"@)),
        disjoint(monitor_port(chain, "FR"@), output_port(chain, "FL"@)),
        disjoint(output_port(chain, "FR"@), output_port(chain, "FL"@)),
        disjoint(monitor_port(chain, "FL"@), output_port(chain, "FR"@)),
        disjoint(monitor_port(chain, "FR"@), output_port(chain, "FR"@)),
        disjoint(output_port(chain, "FL"@), output_port(chain, "FR"@)),
{
    reveal_strlit("monitor_");
    reveal_strlit("output_");
    reveal_strlit("FL");
    reveal_strlit("FR");
    let mfl = "monitor_"@ + "FL"@;
    let mfr = "monitor_"@ + "FR"@;
    let ofl = "output_"@ + "FL"@;
    let ofr = "output_"@ + "FR"@;
    assert(mfl[0] != ofl[0]);
    assert(mfr[0] != ofl[0]);
    assert(mfl[0] != ofr[0]);
    assert(mfr[0] != ofr[0]);
    assert(ofl[8] != ofr[8]);
    lemma_disjoint_named(monitor_port(chain, "FL"@), output_port(chain, "FL"@));
    lemma_disjoint_named(monitor_port(chain, "FR"@), output_port(chain, "FL"@));
    lemma_disjoint_named(output_port(chain, "FR"@), output_port(chain, "FL"@));
    lemma_disjoint_named(monitor_port(chain, "FL"@), output_port(chain, "FR"@));
    lemma_disjoint_named(monitor_port(chain, "FR"@), output_port(chain, "FR"@));
    lemma_disjoint_named(output_port(chain, "FL"@), output_port(chain, "FR"@));
}

/// After the steps that insert the EQ are applied to the graph they were
/// planned from, each of the chain's output channels feeds the device's
/// playback port of that channel and nothing else: every earlier link out
/// of the EQ output, a stale one into a managed node included, is gone.
pub proof fn lemma_through_eq_feeds_device(links: Seq<Link>, chain: EqChainId, device: Seq<char>)
    ensures
        ({
            let g = apply_steps(
                graph_of(links),
                through_eq_channel(links, chain, device, "FL"@) + through_eq_channel(links, chain, device, "FR"@),
            );
            &&& feeds_only(g, output_port(chain, "FL"@), playback_port(device, "FL"@))
            &&& g.contains((output_port(chain, "FL"@), playback_port(device, "FL"@)))
            &&& feeds_only(g, output_port(chain, "FR"@), playback_port(device, "FR"@))
            &&& g.contains((output_port(chain, "FR"@), playback_port(device, "FR"@)))
        }),
{
    let g0 = graph_of(links);
    let ofl = output_port(chain, "FL"@);
    let ofr = output_port(chain, "FR"@);
    let pfl = playback_port(device, "FL"@);
    let pfr = playback_port(device, "FR"@);
    let a = through_eq_channel(links, chain, device, "FL"@);
    let b = through_eq_channel(links, chain, device, "FR"@);
    let ma = monitor_part(links, chain, "FL"@);
    let mb = monitor_part(links, chain, "FR"@);
    let ra = relink_spec(links, ofl, pfl);
    let rb = relink_spec(links, ofr, pfr);
    lemma_channel_sources(links, chain, device, "FL"@);
    lemma_channel_sources(links, chain, device, "FR"@);
    lemma_channel_ports_disjoint(chain);
    lemma_targets_cover(links, ofl);
    lemma_targets_cover(links, ofr);

    // Left channel: the monitor steps leave the output's links alone, then
    // the relink points it at the device.
    assert forall|k: int| 0 <= k < ma.len() implies disjoint(#[trigger] ma[k].1, ofl) by {}
    lemma_disjoint_steps_keep(g0, ma, ofl);
    let g1 = apply_steps(g0, ma);
    assert forall|e: (PortV, PortV)| #[trigger] g1.contains(e) && same_port_spec(e.0, ofl) implies exists|i: int| 0 <= i < targets_spec(links, ofl).len() && targets_spec(links, ofl)[i] == e.1 by {
        assert(g0.contains(e));
    }
    lemma_relink_feeds(g1, links, ofl, pfl);
    lemma_apply_concat(g0, ma, ra);
    let ga = apply_steps(g0, a);
    assert(ga == apply_steps(g1, ra));

    // The right channel's steps leave the left output's links alone.
    assert forall|k: int| 0 <= k < b.len() implies disjoint(#[trigger] b[k].1, ofl) by {
        assert(b[k].1 == monitor_port(chain, "FR"@) || b[k].1 == ofr);
    }
    lemma_disjoint_steps_keep(ga, b, ofl);
    lemma_apply_concat(g0, a, b);
    let g = apply_steps(g0, a + b);
    assert(g == apply_steps(ga, b));
    assert(same_port_spec(ofl, ofl));
    assert(g.contains((ofl, pfl)));
    assert forall|e: (PortV, PortV)| #[trigger] g.contains(e) && same_port_spec(e.0, ofl) implies same_port_spec(e.1, pfl) by {
        assert(ga.contains(e));
    }

    // Right channel: nothing before its relink touched its output's links.
    assert forall|k: int| 0 <= k < a.len() implies disjoint(#[trigger] a[k].1, ofr) by {
        assert(a[k].1 == monitor_port(chain, "FL"@) || a[k].1 == ofl);
    }
    lemma_disjoint_steps_keep(g0, a, ofr);
    assert forall|k: int| 0 <= k < mb.len() implies disjoint(#[trigger] mb[k].1, ofr) by {}
    lemma_disjoint_steps_keep(ga, mb, ofr);
    let g2 = apply_steps(ga, mb);
    assert forall|e: (PortV, PortV)| #[trigger] g2.contains(e) && same_port_spec(e.0, ofr) implies exists|i: int| 0 <= i < targets_spec(links, ofr).len() && targets_spec(links, ofr)[i] == e.1 by {
        assert(ga.contains(e));
        assert(g0.contains(e));
    }
    lemma_relink_feeds(g2, links, ofr, pfr);
    lemma_apply_concat(ga, mb, rb);
    assert(g == apply_steps(g2, rb));
}

/// Every link out of `source` ends on node `node`.
pub open spec fn feeds_only_node(g: Set<(PortV, PortV)>, source: PortV, node: Seq<char>) -> bool {
    forall|e: (PortV, PortV)| #[trigger] g.contains(e) && same_port_spec(e.0, source) ==> e.1.0 == node
}

proof fn lemma_unlink_off_node_removes(g: Set<(PortV, PortV)>, source: PortV, ts: Seq<PortV>, node: Seq<char>)
    ensures
        forall|e: (PortV, PortV)| #[trigger] apply_steps(g, unlink_off_node(source, ts, node)).contains(e) ==> g.contains(e),
        forall|e: (PortV, PortV)|
            #[trigger] apply_steps(g, unlink_off_node(source, ts, node)).contains(e) && same_port_spec(e.0, source)
                && (exists|i: int| 0 <= i < ts.len() && ts[i] == e.1) ==> e.1.0 == node,
    decreases ts.len(),
{
    if ts.len() > 0 {
        let pre = ts.drop_last();
        lemma_unlink_off_node_removes(g, source, pre, node);
        let rest = unlink_off_node(source, pre, node);
        let t = ts.last();
        if t.0 != node {
            assert(unlink_off_node(source, ts, node) == rest.push((false, source, t)));
            assert(rest.push((false, source, t)).drop_last() =~= rest);
            let h = apply_steps(g, rest);
            assert forall|e: (PortV, PortV)|
                #[trigger] apply_steps(g, unlink_off_node(source, ts, node)).contains(e) && same_port_spec(e.0, source)
                    && (exists|i: int| 0 <= i < ts.len() && ts[i] == e.1) implies e.1.0 == node by {
                let i = choose|i: int| 0 <= i < ts.len() && ts[i] == e.1;
                assert(h.contains(e));
                if i < pre.len() {
                    assert(pre[i] == ts[i]);
                } else {
                    assert(e.1 == t);
                    assert(same_port_spec(e.1, t));
                }
            }
        } else {
            assert(unlink_off_node(source, ts, node) == rest);
            assert forall|e: (PortV, PortV)|
                #[trigger] apply_steps(g, unlink_off_node(source, ts, node)).contains(e) && same_port_spec(e.0, source)
                    && (exists|i: int| 0 <= i < ts.len() && ts[i] == e.1) implies e.1.0 == node by {
                let i = choose|i: int| 0 <= i < ts.len() && ts[i] == e.1;
                if i < pre.len() {
                    assert(pre[i] == ts[i]);
                } else {
                    assert(e.1 == t);
                }
            }
        }
    }
}

proof fn lemma_monitor_part_feeds_eq(g: Set<(PortV, PortV)>, links: Seq<Link>, chain: EqChainId, ch: Seq<char>)
    requires
        covered(g, monitor_port(chain, ch), targets_spec(links, monitor_port(chain, ch))),
    ensures
        feeds_only_node(apply_steps(g, monitor_part(links, chain, ch)), monitor_port(chain, ch), sink_node_spec(chain)),
{
    let m = monitor_port(chain, ch);
    let ts = targets_spec(links, m);
    let node = sink_node_spec(chain);
    let dropped = unlink_off_node(m, ts, node);
    lemma_unlink_off_node_removes(g, m, ts, node);
    let h = apply_steps(g, dropped);
    assert forall|e: (PortV, PortV)| #[trigger] h.contains(e) && same_port_spec(e.0, m) implies e.1.0 == node by {
        assert(g.contains(e));
        let i = choose|i: int| 0 <= i < ts.len() && ts[i] == e.1;
    }
    if !any_same_spec(ts, input_port(chain, ch)) {
        let mp = dropped.push((true, m, input_port(chain, ch)));
        assert(mp.drop_last() =~= dropped);
        assert(apply_steps(g, mp) == h.insert((m, input_port(chain, ch))));
    }
}

proof fn lemma_monitor_ports_disjoint(chain: EqChainId)
    ensures
        disjoint(output_port(chain, "FL"@), monitor_port(chain, "FL"@)),
        disjoint(monitor_port(chain, "FR"@), monitor_port(chain, "FL"@)),
        disjoint(output_port(chain, "FR"@), monitor_port(chain, "FL"@)),
        disjoint(monitor_port(chain, "FL"@), monitor_port(chain, "FR"@)),
        disjoint(output_port(chain, "FL"@), monitor_port(chain, "FR"@)),
        disjoint(output_port(chain, "FR"@), monitor_port(chain, "FR"@)),
{
    reveal_strlit("monitor_");
    reveal_strlit("output_");
    reveal_strlit("FL");
    reveal_strlit("FR");
    let mfl = "monitor_"@ + "FL"@;
    let mfr = "monitor_"@ + "FR"@;
    let ofl = "output_"@ + "FL"@;
    let ofr = "output_"@ + "FR"@;
    assert(mfl[0] != ofl[0]);
    assert(mfr[0] != ofl[0]);
    assert(mfl[0] != ofr[0]);
    assert(mfr[0] != ofr[0]);
    assert(mfl[9] != mfr[9]);
    lemma_disjoint_named(output_port(chain, "FL"@), monitor_port(chain, "FL"@));
    lemma_disjoint_named(monitor_port(chain, "FR"@), monitor_port(chain, "FL"@));
    lemma_disjoint_named(output_port(chain, "FR"@), monitor_port(chain, "FL"@));
    lemma_disjoint_named(monitor_port(chain, "FL"@), monitor_port(chain, "FR"@));
    lemma_disjoint_named(output_port(chain, "FL"@), monitor_port(chain, "FR"@));
    lemma_disjoint_named(output_port(chain, "FR"@), monitor_port(chain, "FR"@));
}

proof fn lemma_relink_source(links: Seq<Link>, source: PortV, target: PortV)
    ensures
        forall|k: int| 0 <= k < relink_spec(links, source, target).len() ==> (#[trigger] relink_spec(links, source, target)[k]).1 == source,
{
    let ts = targets_spec(links, source);
    let un = unlink_others(source, ts, target);
    lemma_unlink_others_source(source, ts, target);
    let r = relink_spec(links, source, target);
    assert forall|k: int| 0 <= k < r.len() implies (#[trigger] r[k]).1 == source by {
        if k < un.len() {
            assert(r[k] == un[k]);
        }
    }
}

/// After the steps that insert the EQ are applied to the graph they were
/// planned from, each of the sink's monitor channels feeds nothing but the
/// EQ's input node: no dry path to the device is left beside the wet one.
pub proof fn lemma_through_eq_leaves_no_dry_path(links: Seq<Link>, chain: EqChainId, device: Seq<char>)
    ensures
        ({
            let g = apply_steps(
                graph_of(links),
                through_eq_channel(links, chain, device, "FL"@) + through_eq_channel(links, chain, device, "FR"@),
            );
            &&& feeds_only_node(g, monitor_port(chain, "FL"@), sink_node_spec(chain))
            &&& feeds_only_node(g, monitor_port(chain, "FR"@), sink_node_spec(chain))
        }),
{
    let g0 = graph_of(links);
    let mfl = monitor_port(chain, "FL"@);
    let mfr = monitor_port(chain, "FR"@);
    let node = sink_node_spec(chain);
    let a = through_eq_channel(links, chain, device, "FL"@);
    let b = through_eq_channel(links, chain, device, "FR"@);
    let ma = monitor_part(links, chain, "FL"@);
    let mb = monitor_part(links, chain, "FR"@);
    let ra = relink_spec(links, output_port(chain, "FL"@), playback_port(device, "FL"@));
    let rb = relink_spec(links, output_port(chain, "FR"@), playback_port(device, "FR"@));
    lemma_channel_sources(links, chain, device, "FL"@);
    lemma_channel_sources(links, chain, device, "FR"@);
    lemma_monitor_ports_disjoint(chain);
    lemma_targets_cover(links, mfl);
    lemma_targets_cover(links, mfr);
    lemma_apply_concat(g0, a, b);
    let g = apply_steps(g0, a + b);

    // Left monitor: its own steps, then nothing after them touches it.
    lemma_monitor_part_feeds_eq(g0, links, chain, "FL"@);
    let g1 = apply_steps(g0, ma);
    lemma_apply_concat(g0, ma, ra);
    let ga = apply_steps(g0, a);
    lemma_relink_source(links, output_port(chain, "FL"@), playback_port(device, "FL"@));
    assert forall|k: int| 0 <= k < ra.len() implies disjoint(#[trigger] ra[k].1, mfl) by {
        assert(ra[k].1 == output_port(chain, "FL"@));
    }
    lemma_disjoint_steps_keep(g1, ra, mfl);
    assert forall|k: int| 0 <= k < b.len() implies disjoint(#[trigger] b[k].1, mfl) by {
        assert(b[k].1 == mfr || b[k].1 == output_port(chain, "FR"@));
    }
    lemma_disjoint_steps_keep(ga, b, mfl);
    assert forall|e: (PortV, PortV)| #[trigger] g.contains(e) && same_port_spec(e.0, mfl) implies e.1.0 == node by {
        assert(ga.contains(e));
        assert(g1.contains(e));
    }

    // Right monitor: nothing before its own steps touched it, nothing after.
    assert forall|k: int| 0 <= k < a.len() implies disjoint(#[trigger] a[k].1, mfr) by {
        assert(a[k].1 == mfl || a[k].1 == output_port(chain, "FL"@));
    }
    lemma_disjoint_steps_keep(g0, a, mfr);
    assert forall|e: (PortV, PortV)| #[trigger] ga.contains(e) && same_port_spec(e.0, mfr) implies exists|i: int| 0 <= i < targets_spec(links, mfr).len() && targets_spec(links, mfr)[i] == e.1 by {
        assert(g0.contains(e));
    }
    lemma_monitor_part_feeds_eq(ga, links, chain, "FR"@);
    let g2 = apply_steps(ga, mb);
    lemma_apply_concat(ga, mb, rb);
    assert(g == apply_steps(g2, rb));
    lemma_relink_source(links, output_port(chain, "FR"@), playback_port(device, "FR"@));
    assert forall|k: int| 0 <= k < rb.len() implies disjoint(#[trigger] rb[k].1, mfr) by {
        assert(rb[k].1 == output_port(chain, "FR"@));
    }
    lemma_disjoint_steps_keep(g2, rb, mfr);
    assert forall|e: (PortV, PortV)| #[trigger] g.contains(e) && same_port_spec(e.0, mfr) implies e.1.0 == node by {
        assert(g2.contains(e));
    }
}

} // verus!
