use vstd::prelude::*;

verus! {

/// When a registered resource should be written back to disk.
#[derive(Debug, Clone, Copy, PartialEq, Eq, Structural)]
pub enum SaveTiming {
    /// Save automatically whenever the resource changes.
    Auto,
    /// Only save when `save_now` is called explicitly.
    Manual,
}

/// An automatic save runs for a resource that changed since the last frame,
/// but not in the frame in which it was first added.
pub open spec fn spec_auto_save_due(changed: bool, added: bool) -> bool {
    changed && !added
}

/// Decides whether the automatic save of a resource runs in this frame.
pub fn auto_save_due(changed: bool, added: bool) -> (due: bool)
    ensures
        due == spec_auto_save_due(changed, added),
{
    changed && !added
}

} // verus!
