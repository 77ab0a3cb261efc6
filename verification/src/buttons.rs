//! Mouse buttons that bindings and hotspots refer to.

use vstd::prelude::*;

verus! {

/// A remappable mouse button.
#[derive(Clone, Copy, Debug, PartialEq, Eq, Structural, Hash)]
pub enum ButtonId {
    LeftClick,
    RightClick,
    MiddleClick,
    Back,
    Forward,
    /// The mode-shift / DPI toggle button.
    DpiToggle,
}

} // verus!
