//! Headsets: the failure taxonomy, the per-model protocol, and the registry
//! that tracks which devices are present and which one is selected.

pub mod error;
pub mod headset;
pub mod arctis_nova_7;
pub mod mock;
pub mod registry;
pub mod userdev;
