//! AArch64 routed interrupt delivery.

use crate::error::{AxError, AxResult};
use crate::irq::{InterruptDelivery, InterruptFabric};
use crate::shared::Lent;
use crate::types::VCpuId;
use vstd::prelude::*;

verus! {

/// How the delivery of routed interrupts ended.
#[derive(Clone, Copy, Debug, PartialEq, Eq, Structural)]
pub enum DrainReport {
    /// All interrupts were delivered.
    Drained,
    /// The list registers are full: the interrupt remains pending.
    ListRegistersFull,
    /// The delivery failed.
    Failed(AxError),
}

/// The report on a delivery that ended with `r`.
pub open spec fn report_of(r: AxResult<()>) -> DrainReport {
    match r {
        Ok(_) => DrainReport::Drained,
        Err(error) => if error == AxError::WouldBlock {
            DrainReport::ListRegistersFull
        } else {
            DrainReport::Failed(error)
        },
    }
}

/// Classifies the result of a delivery.
pub fn drain_report(result: AxResult<()>) -> (r: DrainReport)
    ensures
        r == report_of(result),
{
    match result {
        Ok(()) => DrainReport::Drained,
        Err(error) => if error == AxError::WouldBlock {
            DrainReport::ListRegistersFull
        } else {
            DrainReport::Failed(error)
        },
    }
}

/// Delivers the routed interrupts of a vCPU.
pub fn drain_routed_irqs(
    fabric: &InterruptFabric,
    vcpu_id: VCpuId,
    deliver: &mut Lent<'_, dyn InterruptDelivery>,
) -> (r: DrainReport)
    ensures
        exists|d: AxResult<()>| #[trigger]
            fabric.drain_outcome(
                vcpu_id,
                old(deliver).obj().log(),
                final(deliver).obj().log(),
                d,
            ) && r == report_of(d),
{
    let result = fabric.drain_pending(vcpu_id, deliver);
    drain_report(result)
}

/// A delivery that would block is reported as full list registers, any other failure
/// as itself, and success as such.
pub proof fn law_report_tells_how_the_delivery_ended(r: AxResult<()>)
    ensures
        report_of(r) == DrainReport::Drained <==> r is Ok,
        report_of(r) == DrainReport::ListRegistersFull <==> r == Err::<(), AxError>(
            AxError::WouldBlock,
        ),
        r is Err && r->Err_0 != AxError::WouldBlock ==> report_of(r) == DrainReport::Failed(
            r->Err_0,
        ),
{
}

} // verus!
