//! Verified decision core for a squad of game agents: a behavior tree that
//! selects combat actions, a layered animation state-machine adapter, a
//! turret targeting subsystem and a body-impact reaction layer.
//!
//! All quantities are fixed-point integers: times in milliseconds, angles in
//! milli-degrees, positions in milli-units. The host engine converts at the
//! boundary and performs all scene-graph, physics and audio work; this crate
//! holds the logic that decides what the host should do.

use vstd::prelude::*;

pub mod actions;
pub mod angle;
pub mod behavior;
pub mod bot;
pub mod codec;
pub mod context;
pub mod door;
pub mod impact;
pub mod item;
pub mod level;
pub mod projectile;
pub mod rng;
pub mod state_machine;
pub mod turret;
pub mod vecmath;

verus! {

/// Result of ticking a behavior-tree node.
#[derive(Clone, Copy, Debug, PartialEq, Eq, Structural)]
pub enum Status {
    Success,
    Failure,
    Running,
}

} // verus!
