//! LoongArch virtual interrupt backend.

use crate::error::{AxError, AxResult};
use crate::irq::line::IrqSink;
use crate::irq::queue;
use crate::irq::queue::{PendingQueue, QueuedInterrupt};
use crate::irq::router::MsiRoute;
use crate::irq::{
    InterruptControllerOps, InterruptDelivery, InterruptFabric, PendingInterrupt,
};
use crate::shared::Shared;
use crate::types::{
    InterruptTriggerMode, InterruptVector, IrqLineId, VCpuId, VMInterruptMode, BSP_VCPU_ID,
};
use vstd::prelude::*;

verus! {

/// First line that a device can use.
pub const DEVICE_IRQ_START: usize = 2;

/// First line past those that a device can use.
pub const DEVICE_IRQ_END: usize = 10;

/// Whether a device can use the line.
pub open spec fn is_device_line(line: IrqLineId) -> bool {
    DEVICE_IRQ_START <= line.0 < DEVICE_IRQ_END
}

/// The entry that a pulse on the line queues.
pub open spec fn pulse_entry(line: IrqLineId) -> QueuedInterrupt {
    QueuedInterrupt {
        vcpu_id: BSP_VCPU_ID,
        interrupt: PendingInterrupt {
            vector: line.0,
            trigger: InterruptTriggerMode::EdgeTriggered,
        },
    }
}

/// Whether pulsing a line may turn one queue into the other and end with `r`.
pub open spec fn pulsed(
    before: Seq<QueuedInterrupt>,
    after: Seq<QueuedInterrupt>,
    line: IrqLineId,
    r: AxResult<()>,
) -> bool {
    if is_device_line(line) {
        r == Ok::<(), AxError>(()) && after == before.push(pulse_entry(line))
    } else {
        r == Err::<(), AxError>(AxError::InvalidInput) && after == before
    }
}

/// Interrupts of device lines that wait for their vCPUs.
pub struct LoongArchInterruptBackend {
    vcpu_count: usize,
    pending: PendingQueue,
}

impl LoongArchInterruptBackend {
    /// The number of vCPUs.
    pub closed spec fn spec_vcpu_count(&self) -> usize {
        self.vcpu_count
    }

    /// The interrupts that wait for delivery, oldest first.
    pub closed spec fn spec_pending(&self) -> Seq<QueuedInterrupt> {
        self.pending@
    }

    /// There is a vCPU.
    pub open spec fn wf(&self) -> bool {
        self.spec_vcpu_count() > 0
    }

    /// Creates a backend for that many vCPUs, with nothing queued.
    pub fn new(vcpu_count: usize) -> (r: AxResult<Self>)
        ensures
            vcpu_count == 0 ==> r == Err::<Self, AxError>(AxError::InvalidInput),
            vcpu_count > 0 ==> {
                &&& r is Ok
                &&& r->Ok_0.wf()
                &&& r->Ok_0.spec_vcpu_count() == vcpu_count
                &&& r->Ok_0.spec_pending() == Seq::<QueuedInterrupt>::empty()
            },
    {
        if vcpu_count == 0 {
            return Err(AxError::InvalidInput);
        }
        Ok(LoongArchInterruptBackend { vcpu_count, pending: PendingQueue::new() })
    }

    /// Checks that a device can use the line.
    pub fn validate_device_line(line: IrqLineId) -> (r: AxResult<()>)
        ensures
            r == (if is_device_line(line) {
                Ok::<(), AxError>(())
            } else {
                Err(AxError::InvalidInput)
            }),
    {
        if !(DEVICE_IRQ_START <= line.0 && line.0 < DEVICE_IRQ_END) {
            return Err(AxError::InvalidInput);
        }
        Ok(())
    }

    /// Returns the vCPU that the line is routed to.
    pub fn target_vcpu(&self, line: IrqLineId) -> (r: AxResult<VCpuId>)
        ensures
            r == (if !is_device_line(line) {
                Err::<VCpuId, AxError>(AxError::InvalidInput)
            } else if self.spec_vcpu_count() > 0 {
                Ok(BSP_VCPU_ID)
            } else {
                Err(AxError::BadState)
            }),
    {
        match Self::validate_device_line(line) {
            Ok(()) => {},
            Err(error) => {
                return Err(error);
            },
        }
        if BSP_VCPU_ID >= self.vcpu_count {
            return Err(AxError::BadState);
        }
        Ok(BSP_VCPU_ID)
    }

    /// Checks that the line can be used in the given trigger mode: device lines
    /// support edge pulses only.
    pub fn validate_line(&self, line: IrqLineId, trigger: InterruptTriggerMode) -> (r: AxResult<()>)
        requires
            self.wf(),
        ensures
            r == (if !is_device_line(line) {
                Err::<(), AxError>(AxError::InvalidInput)
            } else if trigger == InterruptTriggerMode::EdgeTriggered {
                Ok(())
            } else {
                Err(AxError::Unsupported)
            }),
    {
        match self.target_vcpu(line) {
            Ok(_) => {},
            Err(error) => {
                return Err(error);
            },
        }
        if trigger != InterruptTriggerMode::EdgeTriggered {
            return Err(AxError::Unsupported);
        }
        Ok(())
    }

    /// Refuses to set the level of a line.
    pub fn set_level(&self, line: IrqLineId, asserted: bool) -> (r: AxResult<()>)
        ensures
            r == (if is_device_line(line) {
                Err::<(), AxError>(AxError::Unsupported)
            } else {
                Err(AxError::InvalidInput)
            }),
    {
        match Self::validate_device_line(line) {
            Ok(()) => {},
            Err(error) => {
                return Err(error);
            },
        }
        Err(AxError::Unsupported)
    }

    /// Queues one interrupt of a device line for the bootstrap vCPU.
    pub fn pulse(&mut self, line: IrqLineId) -> (r: AxResult<()>)
        requires
            old(self).wf(),
        ensures
            final(self).wf(),
            final(self).spec_vcpu_count() == old(self).spec_vcpu_count(),
            pulsed(old(self).spec_pending(), final(self).spec_pending(), line, r),
    {
        let vcpu_id: VCpuId = match self.target_vcpu(line) {
            Ok(vcpu_id) => vcpu_id,
            Err(error) => {
                return Err(error);
            },
        };
        self.pending.push_back(
            QueuedInterrupt {
                vcpu_id,
                interrupt: PendingInterrupt {
                    vector: line.0,
                    trigger: InterruptTriggerMode::EdgeTriggered,
                },
            },
        );
        Ok(())
    }

    /// Refuses message-signaled interrupts.
    pub fn inject_msi(&self, route: MsiRoute) -> (r: AxResult<()>)
        ensures
            r == Err::<(), AxError>(AxError::Unsupported),
    {
        Err(AxError::Unsupported)
    }

    /// Refuses an EOI: device lines have no generic one.
    pub fn eoi(&self, vcpu_id: VCpuId, vector: InterruptVector) -> (r: AxResult<()>)
        ensures
            r == Err::<(), AxError>(AxError::Unsupported),
    {
        Err(AxError::Unsupported)
    }

    /// Forwards a host interrupt as a pulse on the line of the same number.
    pub fn forward_host_irq(&mut self, host_irq: usize) -> (r: AxResult<()>)
        requires
            old(self).wf(),
        ensures
            final(self).wf(),
            final(self).spec_vcpu_count() == old(self).spec_vcpu_count(),
            pulsed(old(self).spec_pending(), final(self).spec_pending(), IrqLineId(host_irq), r),
    {
        self.pulse(IrqLineId(host_irq))
    }

    /// Delivers the interrupts of the vCPU in order, up to the first that
    /// fails.
    pub fn drain_pending<D: InterruptDelivery + ?Sized>(
        &mut self,
        vcpu_id: VCpuId,
        deliver: &mut D,
    ) -> (r: AxResult<()>)
        ensures
            final(self).spec_vcpu_count() == old(self).spec_vcpu_count(),
            queue::drained(
                old(self).spec_pending(),
                final(self).spec_pending(),
                vcpu_id,
                old(deliver).log(),
                final(deliver).log(),
                r,
            ),
    {
        self.pending.drain(vcpu_id, deliver)
    }
}

/// The handles through which a VM shares its backend.
pub struct LoongArchBackendHandles {
    /// The line sink.
    pub sink: Shared<dyn IrqSink>,
    /// The controller.
    pub controller: Shared<dyn InterruptControllerOps>,
}

/// Sets up the interrupt fabric of a VM. `share` turns the backend into handles
/// to it.
pub fn configure<F: FnOnce(LoongArchInterruptBackend) -> LoongArchBackendHandles>(
    mode: VMInterruptMode,
    vcpu_count: usize,
    share: F,
) -> (r: AxResult<InterruptFabric>)
    requires
        forall|backend: LoongArchInterruptBackend| #[trigger] call_requires(share, (backend,)),
    ensures
        mode == VMInterruptMode::NoIrq ==> {
            &&& r is Ok
            &&& r->Ok_0.wf()
            &&& r->Ok_0.spec_mode() == mode
            &&& r->Ok_0.spec_sink() is None
            &&& r->Ok_0.spec_controller() is None
            &&& r->Ok_0.spec_msi_routes().len() == 0
        },
        mode != VMInterruptMode::NoIrq && vcpu_count == 0 ==> r == Err::<InterruptFabric, AxError>(
            AxError::InvalidInput,
        ),
        mode != VMInterruptMode::NoIrq && vcpu_count > 0 ==> {
            &&& r is Ok
            &&& r->Ok_0.wf()
            &&& r->Ok_0.spec_mode() == mode
            &&& r->Ok_0.spec_msi_routes().len() == 0
            &&& exists|backend: LoongArchInterruptBackend, handles: LoongArchBackendHandles|
                {
                    &&& #[trigger] call_ensures(share, (backend,), handles)
                    &&& backend.wf()
                    &&& backend.spec_vcpu_count() == vcpu_count
                    &&& backend.spec_pending() == Seq::<QueuedInterrupt>::empty()
                    &&& r->Ok_0.spec_sink() == Some(handles.sink)
                    &&& r->Ok_0.spec_controller() == Some(handles.controller)
                }
        },
{
    if mode == VMInterruptMode::NoIrq {
        return Ok(InterruptFabric::new(mode));
    }
    let backend = match LoongArchInterruptBackend::new(vcpu_count) {
        Ok(backend) => backend,
        Err(error) => {
            return Err(error);
        },
    };
    let handles = share(backend);
    InterruptFabric::with_controller(mode, handles.sink, handles.controller)
}

/// Devices have the lines from 2 to 9. A pulse on one of them queues one
/// edge-triggered interrupt of that number for the first vCPU, behind the others;
/// any other line is refused and nothing is queued.
pub proof fn law_pulse_queues_one_interrupt(
    before: Seq<QueuedInterrupt>,
    after: Seq<QueuedInterrupt>,
    line: IrqLineId,
    r: AxResult<()>,
)
    requires
        pulsed(before, after, line, r),
    ensures
        2 <= line.0 <= 9 <==> is_device_line(line),
        2 <= line.0 <= 9 <==> r is Ok,
        r is Err ==> r == Err::<(), AxError>(AxError::InvalidInput) && after == before,
        r is Ok ==> {
            &&& after.len() == before.len() + 1
            &&& after.drop_last() == before
            &&& after.last().vcpu_id == 0
            &&& after.last().interrupt.vector == line.0
            &&& after.last().interrupt.trigger == InterruptTriggerMode::EdgeTriggered
        },
{
    if r is Ok {
        assert(after.drop_last() =~= before);
    }
}

} // verus!
