//! Orchestration rules: ChatMix policy, EQ bookkeeping, routing, presets,
//! configuration layout and crash-loop detection.

pub mod error;
pub mod chatmix;
pub mod nodes;
pub mod sinks;
pub mod routes;
pub mod config;
pub mod process;
pub mod presets;
pub mod bands;
pub mod wiring;
pub mod user_devices;
pub mod params;
pub mod dispatch;
pub mod graph;
pub mod eq_life;
