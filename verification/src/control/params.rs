//! Live coefficient updates: the controls one biquad node exposes, named as
//! the filter chain expects them.

use vstd::prelude::*;
use vstd::string::*;

verus! {

/// One biquad's coefficients, normalized so that a0 is 1. The values are
/// carried as `F`: this crate never computes with them.
#[derive(Clone, Copy, Debug, PartialEq)]
pub struct Biquad<F> {
    pub b0: F,
    pub b1: F,
    pub b2: F,
    pub a1: F,
    pub a2: F,
}

/// The control for coefficient `port` of node `node`: `node:port`.
pub open spec fn control_name(node: Seq<char>, port: Seq<char>) -> Seq<char> {
    node + ":"@ + port
}

pub open spec fn params_view<F>(v: Seq<(String, F)>) -> Seq<(Seq<char>, F)> {
    v.map_values(|p: (String, F)| (p.0@, p.1))
}

/// The node's five coefficient controls with their values, in the order
/// b0, b1, b2, a1, a2.
pub open spec fn params_spec<F>(node: Seq<char>, bq: Biquad<F>) -> Seq<(Seq<char>, F)> {
    seq![
        (control_name(node, "b0"@), bq.b0),
        (control_name(node, "b1"@), bq.b1),
        (control_name(node, "b2"@), bq.b2),
        (control_name(node, "a1"@), bq.a1),
        (control_name(node, "a2"@), bq.a2),
    ]
}

fn control(node: &str, port: &str) -> (r: String)
    ensures
        r@ == control_name(node@, port@),
{
    let mut s = String::from_str(node);
    s.append(":");
    s.append(port);
    s
}

/// Coefficient controls for one graph node, as (control, value) pairs.
pub fn coefficient_params<F: Copy>(graph_node: &str, bq: &Biquad<F>) -> (r: Vec<(String, F)>)
    ensures
        params_view(r@) == params_spec(graph_node@, *bq),
{
    let mut out: Vec<(String, F)> = Vec::new();
    out.push((control(graph_node, "b0"), bq.b0));
    out.push((control(graph_node, "b1"), bq.b1));
    out.push((control(graph_node, "b2"), bq.b2));
    out.push((control(graph_node, "a1"), bq.a1));
    out.push((control(graph_node, "a2"), bq.a2));
    assert(params_view(out@) =~= params_spec(graph_node@, *bq));
    out
}

} // verus!
