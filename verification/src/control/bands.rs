//! Editing an EQ chain's bands: the rules the manager applies before it
//! pushes anything to the graph.
//!
//! The graph is fixed at [`MAX_BANDS`] biquad slots per chain, so a chain
//! never holds more; every edit is refused while safe mode is on, and a
//! refused edit changes nothing. The band values themselves are opaque here
//! (`B`): clamping them is the caller's business.

use crate::control::error::CoreError;
use crate::text::{decimal, push_decimal};
use vstd::prelude::*;
use vstd::string::*;

verus! {

/// Biquad slots per chain in the filter-chain graph.
pub const MAX_BANDS: usize = 10;

/// One chain's on/off switch and its bands, in slot order.
#[derive(Debug, Clone, PartialEq)]
pub struct BandList<B> {
    pub enabled: bool,
    pub bands: Vec<B>,
}

pub open spec fn safe_mode_message() -> Seq<char> {
    "EQ is in safe mode"@
}

pub open spec fn out_of_range_message(index: nat) -> Seq<char> {
    "band index "@ + decimal(index) + " out of range"@
}

pub open spec fn full_chain_message() -> Seq<char> {
    "chain already holds "@ + decimal(MAX_BANDS as nat) + " bands"@
}

/// Refuses every edit while safe mode is on.
pub fn ensure_active(safe_mode: bool) -> (r: Result<(), CoreError>)
    ensures
        safe_mode ==> (r matches Err(CoreError::Invalid(m)) && m@ == safe_mode_message()),
        !safe_mode ==> r is Ok,
{
    if safe_mode {
        return Err(CoreError::Invalid(String::from_str("EQ is in safe mode")));
    }
    Ok(())
}

fn out_of_range(index: usize) -> (e: CoreError)
    ensures
        e matches CoreError::Invalid(m) && m@ == out_of_range_message(index as nat),
{
    let mut m = String::from_str("band index ");
    push_decimal(&mut m, index as u64);
    m.append(" out of range");
    CoreError::Invalid(m)
}

/// Replaces band `index`; the result tells whether the chain is enabled,
/// that is whether the band's node must be pushed.
pub fn set_band<B>(safe_mode: bool, chain: &mut BandList<B>, index: usize, band: B) -> (r: Result<
    bool,
    CoreError,
>)
    ensures
        safe_mode ==> (r matches Err(CoreError::Invalid(m)) && m@ == safe_mode_message()),
        !safe_mode && index >= old(chain).bands@.len() ==> (r matches Err(CoreError::Invalid(m))
            && m@ == out_of_range_message(index as nat)),
        r is Err ==> *final(chain) == *old(chain),
        !safe_mode && index < old(chain).bands@.len() ==> r == Ok::<bool, CoreError>(
            old(chain).enabled,
        ) && final(chain).enabled == old(chain).enabled && final(chain).bands@ == old(
            chain,
        ).bands@.update(index as int, band),
{
    ensure_active(safe_mode)?;
    if index >= chain.bands.len() {
        return Err(out_of_range(index));
    }
    chain.bands.set(index, band);
    Ok(chain.enabled)
}

/// Appends a band; the result is its index and whether the chain is
/// enabled. A chain already holding [`MAX_BANDS`] bands is refused.
pub fn add_band<B>(safe_mode: bool, chain: &mut BandList<B>, band: B) -> (r: Result<
    (usize, bool),
    CoreError,
>)
    ensures
        safe_mode ==> (r matches Err(CoreError::Invalid(m)) && m@ == safe_mode_message()),
        !safe_mode && old(chain).bands@.len() >= MAX_BANDS ==> (r matches Err(
            CoreError::Invalid(m),
        ) && m@ == full_chain_message()),
        r is Err ==> *final(chain) == *old(chain),
        !safe_mode && old(chain).bands@.len() < MAX_BANDS ==> r == Ok::<(usize, bool), CoreError>(
            (old(chain).bands@.len() as usize, old(chain).enabled),
        ) && final(chain).enabled == old(chain).enabled && final(chain).bands@ == old(
            chain,
        ).bands@.push(band),
{
    ensure_active(safe_mode)?;
    if chain.bands.len() >= MAX_BANDS {
        let mut m = String::from_str("chain already holds ");
        push_decimal(&mut m, MAX_BANDS as u64);
        m.append(" bands");
        return Err(CoreError::Invalid(m));
    }
    chain.bands.push(band);
    Ok((chain.bands.len() - 1, chain.enabled))
}

/// Removes band `index`, shifting the later ones down.
pub fn remove_band<B>(safe_mode: bool, chain: &mut BandList<B>, index: usize) -> (r: Result<
    (),
    CoreError,
>)
    ensures
        safe_mode ==> (r matches Err(CoreError::Invalid(m)) && m@ == safe_mode_message()),
        !safe_mode && index >= old(chain).bands@.len() ==> (r matches Err(CoreError::Invalid(m))
            && m@ == out_of_range_message(index as nat)),
        r is Err ==> *final(chain) == *old(chain),
        !safe_mode && index < old(chain).bands@.len() ==> r is Ok && final(chain).enabled == old(
            chain,
        ).enabled && final(chain).bands@ == old(chain).bands@.remove(index as int),
{
    ensure_active(safe_mode)?;
    if index >= chain.bands.len() {
        return Err(out_of_range(index));
    }
    chain.bands.remove(index);
    Ok(())
}

/// Switches the chain on or off.
pub fn set_chain_enabled<B>(safe_mode: bool, chain: &mut BandList<B>, enabled: bool) -> (r: Result<
    (),
    CoreError,
>)
    ensures
        safe_mode ==> (r matches Err(CoreError::Invalid(m)) && m@ == safe_mode_message()),
        r is Err ==> *final(chain) == *old(chain),
        !safe_mode ==> r is Ok && final(chain).enabled == enabled && final(chain).bands@ == old(
            chain,
        ).bands@,
{
    ensure_active(safe_mode)?;
    chain.enabled = enabled;
    Ok(())
}

/// Removing the band that was just added gives back the bands from before.
pub proof fn lemma_remove_undoes_add<B>(bands: Seq<B>, band: B)
    ensures
        bands.push(band).remove(bands.len() as int) == bands,
{
    assert(bands.push(band).remove(bands.len() as int) =~= bands);
}

/// Edits that succeed never take a chain past [`MAX_BANDS`] bands.
pub proof fn lemma_bands_stay_bounded<B>(bands: Seq<B>, band: B, index: int)
    requires
        bands.len() <= MAX_BANDS,
    ensures
        bands.len() < MAX_BANDS ==> bands.push(band).len() <= MAX_BANDS,
        0 <= index < bands.len() ==> bands.update(index, band).len() <= MAX_BANDS,
        0 <= index < bands.len() ==> bands.remove(index).len() <= MAX_BANDS,
{
}

} // verus!
