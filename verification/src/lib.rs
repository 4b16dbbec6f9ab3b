//! Penguin Wave: headset control, ChatMix policy, EQ bookkeeping and the
//! daemon's wire-level rules, as a verified library.

pub mod proto;
pub mod events;
pub mod text;
pub mod hid;
pub mod daemon;
pub mod control;
pub mod cli;
