//! Verified core of the Aether terminal monitor.
use vstd::prelude::*;

pub mod braille;
pub mod effects;
pub mod model;
pub mod palette;
pub mod script;
pub mod targets;
pub mod tui;
pub mod web;

verus! {
} // verus!
