//! ChatMix policy: turn a headset wheel position, or a value pinned by
//! hand, into the balance between the game and chat sinks.

use crate::proto::{ChatMix, DeviceId};
use vstd::prelude::*;

verus! {

/// The balance the daemon last applied.
pub struct ChatMixState {
    mix: ChatMix,
}

/// Volumes for the game and chat sinks at a balance.
pub open spec fn volumes_spec(value: u8) -> (u8, u8) {
    (value, (100 - value) as u8)
}

/// The balance a hand-set value asks for: pinned and clamped to 100, or
/// the current value handed back to the wheel.
pub open spec fn manual_target_spec(current: ChatMix, value: Option<u8>) -> ChatMix {
    match value {
        Some(v) => ChatMix { value: if v < 100 { v } else { 100 }, manual: true },
        None => ChatMix { value: current.value, manual: false },
    }
}

/// The balance a wheel reading asks for: nothing while a value is pinned or
/// when the wheel has not moved.
pub open spec fn wheel_target_spec(current: ChatMix, wheel: u8) -> Option<ChatMix> {
    if current.manual || wheel == current.value {
        None
    } else {
        Some(ChatMix { value: wheel, manual: false })
    }
}

impl ChatMixState {
    pub closed spec fn view(&self) -> ChatMix {
        self.mix
    }

    pub open spec fn wf(&self) -> bool {
        self.view().value <= 100
    }

    /// Centred, following the wheel.
    pub fn new() -> (s: Self)
        ensures
            s.view() == (ChatMix { value: 50, manual: false }),
            s.wf(),
    {
        ChatMixState { mix: ChatMix { value: 50, manual: false } }
    }

    pub fn state(&self) -> (r: ChatMix)
        ensures
            r == self.view(),
    {
        self.mix
    }

    /// Pin the balance by hand, or hand control back to the wheel.
    pub fn manual_target(&self, value: Option<u8>) -> (r: ChatMix)
        requires
            self.wf(),
        ensures
            r == manual_target_spec(self.view(), value),
            r.value <= 100,
    {
        match value {
            Some(v) => ChatMix { value: if v < 100 { v } else { 100 }, manual: true },
            None => ChatMix { value: self.mix.value, manual: false },
        }
    }

    /// What a wheel reading of `wheel` changes, if anything.
    pub fn wheel_target(&self, wheel: u8) -> (r: Option<ChatMix>)
        ensures
            r == wheel_target_spec(self.view(), wheel),
    {
        if self.mix.manual || wheel == self.mix.value {
            None
        } else {
            Some(ChatMix { value: wheel, manual: false })
        }
    }

    /// Which headset to read this round: none while a value is pinned or
    /// while nothing is selected.
    pub fn poll_device(&self, selected: Option<DeviceId>) -> (r: Option<DeviceId>)
        ensures
            r == if self.view().manual {
                None
            } else {
                selected
            },
    {
        if self.mix.manual {
            None
        } else {
            selected
        }
    }

    /// Record the balance that was applied.
    pub fn commit(&mut self, next: ChatMix)
        requires
            next.value <= 100,
        ensures
            final(self).view() == next,
            final(self).wf(),
    {
        self.mix = next;
    }
}

/// Game gets the balance, chat the rest.
pub fn sink_volumes(mix: ChatMix) -> (r: (u8, u8))
    requires
        mix.value <= 100,
    ensures
        r == volumes_spec(mix.value),
        r.0 + r.1 == 100,
{
    (mix.value, 100 - mix.value)
}

/// A pinned value holds against the wheel: whatever the wheel reads, it
/// changes nothing until the value is released.
pub proof fn lemma_manual_pins(current: ChatMix, v: u8, wheel: u8)
    ensures
        wheel_target_spec(manual_target_spec(current, Some(v)), wheel) is None,
        manual_target_spec(current, Some(v)).value <= 100,
{
}

/// Releasing keeps the balance and lets the next wheel movement through.
pub proof fn lemma_release_follows_wheel(current: ChatMix, wheel: u8)
    ensures
        manual_target_spec(current, None).value == current.value,
        wheel_target_spec(manual_target_spec(current, None), wheel) == if wheel == current.value {
            None::<ChatMix>
        } else {
            Some(ChatMix { value: wheel, manual: false })
        },
{
}

} // verus!
