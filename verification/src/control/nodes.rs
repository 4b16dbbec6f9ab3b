//! PipeWire node names for the EQ filter chains.

use crate::proto::{EqChainId, CHAT_SINK, GAME_SINK};
use crate::text::str_eq;
use vstd::prelude::*;
use vstd::string::*;

verus! {

/// Capture-side node: carries the DSP controls, captures the sink's monitor.
pub open spec fn sink_node_spec(chain: EqChainId) -> Seq<char> {
    match chain {
        EqChainId::Game => "penguinwave_eq_game"@,
        EqChainId::Chat => "penguinwave_eq_chat"@,
    }
}

/// Playback-side node: feeds the output device.
pub open spec fn output_node_spec(chain: EqChainId) -> Seq<char> {
    match chain {
        EqChainId::Game => "penguinwave_eq_game_out"@,
        EqChainId::Chat => "penguinwave_eq_chat_out"@,
    }
}

/// Virtual sink whose monitor the chain captures.
pub open spec fn source_sink_spec(chain: EqChainId) -> Seq<char> {
    match chain {
        EqChainId::Game => GAME_SINK@,
        EqChainId::Chat => CHAT_SINK@,
    }
}

pub open spec fn chain_for_sink_spec(name: Seq<char>) -> Option<EqChainId> {
    if name == GAME_SINK@ {
        Some(EqChainId::Game)
    } else if name == CHAT_SINK@ {
        Some(EqChainId::Chat)
    } else {
        None
    }
}

/// A node Penguin Wave manages itself, never a valid output target.
pub open spec fn is_managed_spec(node: Seq<char>) -> bool {
    ||| node == GAME_SINK@
    ||| node == CHAT_SINK@
    ||| node == sink_node_spec(EqChainId::Game)
    ||| node == output_node_spec(EqChainId::Game)
    ||| node == sink_node_spec(EqChainId::Chat)
    ||| node == output_node_spec(EqChainId::Chat)
}

pub fn sink_node_name(chain: EqChainId) -> (r: &'static str)
    ensures
        r@ == sink_node_spec(chain),
{
    match chain {
        EqChainId::Game => "penguinwave_eq_game",
        EqChainId::Chat => "penguinwave_eq_chat",
    }
}

pub fn output_node_name(chain: EqChainId) -> (r: &'static str)
    ensures
        r@ == output_node_spec(chain),
{
    match chain {
        EqChainId::Game => "penguinwave_eq_game_out",
        EqChainId::Chat => "penguinwave_eq_chat_out",
    }
}

pub fn source_sink_for(chain: EqChainId) -> (r: &'static str)
    ensures
        r@ == source_sink_spec(chain),
{
    match chain {
        EqChainId::Game => GAME_SINK,
        EqChainId::Chat => CHAT_SINK,
    }
}

/// The chain that captures sink `sink_name`, if it is a managed sink.
pub fn chain_for_sink(sink_name: &str) -> (r: Option<EqChainId>)
    ensures
        r == chain_for_sink_spec(sink_name@),
{
    if str_eq(sink_name, GAME_SINK) {
        Some(EqChainId::Game)
    } else if str_eq(sink_name, CHAT_SINK) {
        Some(EqChainId::Chat)
    } else {
        None
    }
}

/// Routing an EQ output into a managed node creates a feedback loop, and the
/// user's default sink is often `game_sink`.
pub fn is_managed_node(node: &str) -> (r: bool)
    ensures
        r == is_managed_spec(node@),
{
    str_eq(node, GAME_SINK) || str_eq(node, CHAT_SINK) || str_eq(
        node,
        sink_node_name(EqChainId::Game),
    ) || str_eq(node, output_node_name(EqChainId::Game)) || str_eq(
        node,
        sink_node_name(EqChainId::Chat),
    ) || str_eq(node, output_node_name(EqChainId::Chat))
}

/// Every chain maps back from the sink it captures.
pub proof fn lemma_chain_round_trip(chain: EqChainId)
    ensures
        chain_for_sink_spec(source_sink_spec(chain)) == Some(chain),
{
    reveal_strlit("game_sink");
    reveal_strlit("chat_sink");
    if chain == EqChainId::Chat {
        assert(CHAT_SINK@ != GAME_SINK@) by {
            assert(CHAT_SINK@[0] != GAME_SINK@[0]);
        }
    }
}

/// The chain's own nodes and the sinks it captures are all managed.
pub proof fn lemma_chain_nodes_managed(chain: EqChainId)
    ensures
        is_managed_spec(sink_node_spec(chain)),
        is_managed_spec(output_node_spec(chain)),
        is_managed_spec(source_sink_spec(chain)),
{
}

} // verus!
