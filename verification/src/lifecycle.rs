//! Device lifecycle operations.

use crate::error::AxResult;
use vstd::prelude::*;

verus! {

/// Optional lifecycle hooks implemented by stateful devices.
///
/// Devices register this capability only when they have meaningful lifecycle
/// state to reset, suspend, or resume. The outcome functions are the
/// implementor's own: they name what a call may return, which is anything
/// unless the implementor says more.
pub trait DeviceLifecycle: Send + Sync {
    /// Whether a reset may end with `r`.
    open spec fn reset_outcome(&self, r: AxResult<()>) -> bool {
        true
    }

    /// Whether a suspend may end with `r`.
    open spec fn suspend_outcome(&self, r: AxResult<()>) -> bool {
        true
    }

    /// Whether a resume may end with `r`.
    open spec fn resume_outcome(&self, r: AxResult<()>) -> bool {
        true
    }

    /// Resets the device to its power-on state.
    fn reset(&self) -> (r: AxResult<()>)
        ensures
            self.reset_outcome(r),
    ;

    /// Saves or quiesces device state before the VM is suspended.
    fn suspend(&self) -> (r: AxResult<()>)
        ensures
            self.suspend_outcome(r),
    ;

    /// Restores device state after the VM is resumed.
    fn resume(&self) -> (r: AxResult<()>)
        ensures
            self.resume_outcome(r),
    ;
}

} // verus!
