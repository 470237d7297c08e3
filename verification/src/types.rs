//! Types used by all parts of the engine.

use vstd::prelude::*;

verus! {

/// Enum for all actions triggered by input/system events.
#[derive(Debug, Clone, Copy, PartialEq, Eq, Structural)]
pub enum EventAction {
    /// Switch between fullscreen and windowed mode.
    ToggleFullscreen,
}

} // verus!
