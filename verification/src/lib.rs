//! Core logic of a desktop status bar: snapshot types for the observed
//! system domains (battery, network, workspaces, audio, clock, system load),
//! a latest-value subscription channel that carries them from producer tasks
//! to widgets, and the per-widget update functions that turn a snapshot into
//! presentation fields.

pub mod channel;
pub mod clock;
pub mod volume;
pub mod sysinfo;
pub mod hyprland;
pub mod network;
pub mod upower;
pub mod text;

use vstd::prelude::*;

verus! {

/// A percentage as the producers publish it: within the 0..=100 range.
pub open spec fn valid_percent(p: u8) -> bool {
    p <= 100
}

} // verus!
