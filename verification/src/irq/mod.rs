//! VM-owned interrupt line routing.

pub mod aarch64;
pub mod gppt_factory;
pub mod line;
pub mod loongarch;
pub mod port_factory;
pub mod queue;
pub mod router;
pub mod x86;

use crate::error::{AxError, AxResult};
use crate::irq::line::{IrqLine, IrqResolver, IrqSink};
use crate::irq::router::MsiRoute;
use crate::resource::MsiMessage;
use crate::shared::{Lent, Shared};
use crate::types::{
    InterruptTriggerMode, InterruptVector, IrqLineId, VCpuId, VMInterruptMode,
};
use vstd::prelude::*;

verus! {

/// An interrupt routed by a VM interrupt controller and ready for vCPU
/// delivery.
#[derive(Clone, Copy, Debug, PartialEq, Eq, Structural)]
pub struct PendingInterrupt {
    /// Guest interrupt vector.
    pub vector: usize,
    /// Trigger mode selected by the interrupt controller.
    pub trigger: InterruptTriggerMode,
}

/// An interrupt that was handed over, and how that ended.
pub type Delivery = (PendingInterrupt, AxResult<()>);

/// Hands routed interrupts over to a vCPU.
///
/// The record is the implementor's own account of the calls: each adds one
/// entry. A verified implementor that keeps no such account at run time holds it
/// as a ghost value; with any other it is only thought of.
pub trait InterruptDelivery {
    /// The interrupts that were handed over so far, oldest first.
    open spec fn log(&self) -> Seq<Delivery> {
        arbitrary()
    }

    /// Delivers one interrupt.
    fn deliver(&mut self, interrupt: PendingInterrupt) -> (r: AxResult<()>)
        ensures
            final(self).log() == old(self).log().push((interrupt, r)),
    ;
}

/// Controller operations that require a safe VM or vCPU runtime context.
///
/// The outcome functions are the implementor's own: they name what a call may
/// return, which is anything unless the implementor says more.
pub trait InterruptControllerOps: Send + Sync {
    /// Whether injecting a routed message may end with `r`.
    open spec fn msi_outcome(&self, route: MsiRoute, r: AxResult<()>) -> bool {
        true
    }

    /// Whether processing an end of interrupt may end with `r`.
    open spec fn eoi_outcome(
        &self,
        vcpu_id: VCpuId,
        vector: InterruptVector,
        r: AxResult<()>,
    ) -> bool {
        true
    }

    /// Whether forwarding a host interrupt may end with `r`.
    open spec fn forward_outcome(&self, host_irq: usize, r: AxResult<()>) -> bool {
        true
    }

    /// Whether delivering the interrupts of a vCPU may turn one record of
    /// deliveries into the other and end with `r`.
    open spec fn drain_outcome(
        &self,
        vcpu_id: VCpuId,
        before: Seq<Delivery>,
        after: Seq<Delivery>,
        r: AxResult<()>,
    ) -> bool {
        true
    }

    /// Queues a routed message-signaled interrupt.
    fn inject_msi(&self, route: MsiRoute) -> (r: AxResult<()>)
        ensures
            self.msi_outcome(route, r),
    ;

    /// Processes an EOI broadcast from one vCPU.
    fn eoi(&self, vcpu_id: VCpuId, vector: InterruptVector) -> (r: AxResult<()>)
        ensures
            self.eoi_outcome(vcpu_id, vector, r),
    ;

    /// Maps a host interrupt number to a VM-local interrupt line.
    fn forward_host_irq(&self, host_irq: usize) -> (r: AxResult<()>)
        ensures
            self.forward_outcome(host_irq, r),
    ;

    /// Delivers pending routed interrupts for one vCPU.
    fn drain_pending(&self, vcpu_id: VCpuId, deliver: &mut Lent<'_, dyn InterruptDelivery>) -> (r:
        AxResult<()>)
        ensures
            self.drain_outcome(
                vcpu_id,
                old(deliver).obj().log(),
                final(deliver).obj().log(),
                r,
            ),
    ;
}

/// Resolves device interrupt lines against one VM's interrupt backend.
///
/// The fabric owns only the backend capability. It never owns or references the
/// containing VM, so devices can retain [`IrqLine`] objects without creating a
/// reference cycle through the VM.
pub struct InterruptFabric {
    mode: VMInterruptMode,
    sink: Option<Shared<dyn IrqSink>>,
    controller: Option<Shared<dyn InterruptControllerOps>>,
    msi_routes: Vec<MsiRoute>,
}

/// Whether the first route for the message stands at `i`.
pub open spec fn route_at(routes: Seq<MsiRoute>, message: MsiMessage, i: int) -> bool {
    &&& 0 <= i < routes.len()
    &&& routes[i].message == message
    &&& forall|j: int| 0 <= j < i ==> (#[trigger] routes[j]).message != message
}

/// Whether no route accepts the message.
pub open spec fn unrouted(routes: Seq<MsiRoute>, message: MsiMessage) -> bool {
    forall|j: int| 0 <= j < routes.len() ==> (#[trigger] routes[j]).message != message
}

impl InterruptFabric {
    /// The interrupt mode.
    pub closed spec fn spec_mode(&self) -> VMInterruptMode {
        self.mode
    }

    /// The backend that lines end in, if there is one.
    pub closed spec fn spec_sink(&self) -> Option<Shared<dyn IrqSink>> {
        self.sink
    }

    /// The controller, if there is one.
    pub closed spec fn spec_controller(&self) -> Option<Shared<dyn InterruptControllerOps>> {
        self.controller
    }

    /// The message routes, oldest first.
    pub closed spec fn spec_msi_routes(&self) -> Seq<MsiRoute> {
        self.msi_routes@
    }

    /// A VM without interrupts has no backend, and a controller comes with one.
    pub open spec fn wf(&self) -> bool {
        &&& self.spec_mode() == VMInterruptMode::NoIrq ==> self.spec_sink() is None
        &&& self.spec_controller() is Some ==> self.spec_sink() is Some
    }

    /// Why a line cannot be signaled without a backend.
    pub open spec fn missing_sink(&self) -> AxError {
        if self.spec_mode() == VMInterruptMode::NoIrq {
            AxError::InvalidInput
        } else {
            AxError::Unsupported
        }
    }

    /// Whether driving a line may end with `r`.
    pub open spec fn level_outcome(&self, line: IrqLineId, asserted: bool, r: AxResult<()>) -> bool {
        match self.spec_sink() {
            Some(sink) => sink.obj().level_outcome(line, asserted, r),
            None => r == Err::<(), AxError>(self.missing_sink()),
        }
    }

    /// Whether pulsing a line may end with `r`.
    pub open spec fn pulse_outcome(&self, line: IrqLineId, r: AxResult<()>) -> bool {
        match self.spec_sink() {
            Some(sink) => sink.obj().pulse_outcome(line, r),
            None => r == Err::<(), AxError>(self.missing_sink()),
        }
    }

    /// Whether an end of interrupt may end with `r`.
    pub open spec fn eoi_outcome(
        &self,
        vcpu_id: VCpuId,
        vector: InterruptVector,
        r: AxResult<()>,
    ) -> bool {
        match self.spec_controller() {
            Some(controller) => controller.obj().eoi_outcome(vcpu_id, vector, r),
            None => r == Ok::<(), AxError>(()),
        }
    }

    /// Whether forwarding a host interrupt may end with `r`.
    pub open spec fn forward_outcome(&self, host_irq: usize, r: AxResult<()>) -> bool {
        match self.spec_controller() {
            Some(controller) => controller.obj().forward_outcome(host_irq, r),
            None => r == Err::<(), AxError>(AxError::Unsupported),
        }
    }

    /// Whether delivering the interrupts of a vCPU may turn one record of
    /// deliveries into the other and end with `r`: without a controller nothing
    /// is delivered.
    pub open spec fn drain_outcome(
        &self,
        vcpu_id: VCpuId,
        before: Seq<Delivery>,
        after: Seq<Delivery>,
        r: AxResult<()>,
    ) -> bool {
        match self.spec_controller() {
            Some(controller) => controller.obj().drain_outcome(vcpu_id, before, after, r),
            None => r == Ok::<(), AxError>(()) && after == before,
        }
    }

    /// Whether delivering a message may end with `r`: its route is injected,
    /// and a message without a route is not found.
    pub open spec fn msi_outcome(&self, message: MsiMessage, r: AxResult<()>) -> bool {
        match self.spec_controller() {
            Some(controller) => {
                ||| unrouted(self.spec_msi_routes(), message) && r == Err::<(), AxError>(
                    AxError::NotFound,
                )
                ||| exists|i: int|
                    #[trigger] route_at(self.spec_msi_routes(), message, i)
                        && controller.obj().msi_outcome(self.spec_msi_routes()[i], r)
            },
            None => r == Err::<(), AxError>(AxError::Unsupported),
        }
    }

    /// Creates a fabric without an interrupt backend.
    pub fn new(mode: VMInterruptMode) -> (r: Self)
        ensures
            r.wf(),
            r.spec_mode() == mode,
            r.spec_sink() is None,
            r.spec_controller() is None,
            r.spec_msi_routes().len() == 0,
    {
        InterruptFabric { mode, sink: None, controller: None, msi_routes: Vec::new() }
    }

    /// Creates a fabric that routes lines to `sink`.
    pub fn with_sink(mode: VMInterruptMode, sink: Shared<dyn IrqSink>) -> (r: AxResult<Self>)
        ensures
            mode == VMInterruptMode::NoIrq ==> r == Err::<Self, AxError>(AxError::InvalidInput),
            mode != VMInterruptMode::NoIrq ==> {
                &&& r is Ok
                &&& r->Ok_0.wf()
                &&& r->Ok_0.spec_mode() == mode
                &&& r->Ok_0.spec_sink() == Some(sink)
                &&& r->Ok_0.spec_controller() is None
                &&& r->Ok_0.spec_msi_routes().len() == 0
            },
    {
        if mode == VMInterruptMode::NoIrq {
            return Err(AxError::InvalidInput);
        }
        Ok(InterruptFabric { mode, sink: Some(sink), controller: None, msi_routes: Vec::new() })
    }

    /// Creates a fabric with line signaling and controller runtime operations.
    pub fn with_controller(
        mode: VMInterruptMode,
        sink: Shared<dyn IrqSink>,
        controller: Shared<dyn InterruptControllerOps>,
    ) -> (r: AxResult<Self>)
        ensures
            mode == VMInterruptMode::NoIrq ==> r == Err::<Self, AxError>(AxError::InvalidInput),
            mode != VMInterruptMode::NoIrq ==> {
                &&& r is Ok
                &&& r->Ok_0.wf()
                &&& r->Ok_0.spec_mode() == mode
                &&& r->Ok_0.spec_sink() == Some(sink)
                &&& r->Ok_0.spec_controller() == Some(controller)
                &&& r->Ok_0.spec_msi_routes().len() == 0
            },
    {
        if mode == VMInterruptMode::NoIrq {
            return Err(AxError::InvalidInput);
        }
        Ok(
            InterruptFabric {
                mode,
                sink: Some(sink),
                controller: Some(controller),
                msi_routes: Vec::new(),
            },
        )
    }

    /// Adds a message route behind the others.
    pub fn add_msi_route(&mut self, route: MsiRoute)
        ensures
            final(self).spec_msi_routes() == old(self).spec_msi_routes().push(route),
            final(self).spec_mode() == old(self).spec_mode(),
            final(self).spec_sink() == old(self).spec_sink(),
            final(self).spec_controller() == old(self).spec_controller(),
            old(self).wf() ==> final(self).wf(),
    {
        self.msi_routes.push(route);
    }

    /// Returns the VM interrupt mode associated with this fabric.
    pub fn mode(&self) -> (r: VMInterruptMode)
        ensures
            r == self.spec_mode(),
    {
        self.mode
    }

    /// Returns whether this fabric has an interrupt backend.
    pub fn has_backend(&self) -> (r: bool)
        ensures
            r == (self.spec_sink() is Some),
    {
        self.sink.is_some()
    }

    /// Returns whether this fabric has controller runtime operations.
    pub fn has_controller(&self) -> (r: bool)
        ensures
            r == (self.spec_controller() is Some),
    {
        self.controller.is_some()
    }

    fn sink_for_line(&self) -> (r: AxResult<&Shared<dyn IrqSink>>)
        ensures
            match self.spec_sink() {
                Some(sink) => r is Ok && *r->Ok_0 == sink,
                None => r is Err && r->Err_0 == self.missing_sink(),
            },
    {
        match &self.sink {
            Some(sink) => Ok(sink),
            None => if self.mode == VMInterruptMode::NoIrq {
                Err(AxError::InvalidInput)
            } else {
                Err(AxError::Unsupported)
            },
        }
    }

    /// Sets the asserted state of a VM-local interrupt line.
    pub fn set_level(&self, line: usize, asserted: bool) -> (r: AxResult<()>)
        ensures
            self.level_outcome(IrqLineId(line), asserted, r),
    {
        match self.sink_for_line() {
            Ok(sink) => sink.get().set_level(IrqLineId(line), asserted),
            Err(error) => Err(error),
        }
    }

    /// Delivers one pulse on a VM-local interrupt line.
    pub fn pulse(&self, line: usize) -> (r: AxResult<()>)
        ensures
            self.pulse_outcome(IrqLineId(line), r),
    {
        match self.sink_for_line() {
            Ok(sink) => sink.get().pulse(IrqLineId(line)),
            Err(error) => Err(error),
        }
    }

    /// Processes an EOI broadcast for this VM.
    pub fn eoi(&self, vcpu_id: VCpuId, vector: InterruptVector) -> (r: AxResult<()>)
        ensures
            self.eoi_outcome(vcpu_id, vector, r),
    {
        match &self.controller {
            Some(controller) => controller.get().eoi(vcpu_id, vector),
            None => Ok(()),
        }
    }

    /// Forwards one host interrupt through this VM's controller backend.
    pub fn forward_host_irq(&self, host_irq: usize) -> (r: AxResult<()>)
        ensures
            self.forward_outcome(host_irq, r),
    {
        match &self.controller {
            Some(controller) => controller.get().forward_host_irq(host_irq),
            None => Err(AxError::Unsupported),
        }
    }

    /// Delivers pending routed interrupts for one vCPU.
    pub fn drain_pending(
        &self,
        vcpu_id: VCpuId,
        deliver: &mut Lent<'_, dyn InterruptDelivery>,
    ) -> (r: AxResult<()>)
        ensures
            self.drain_outcome(
                vcpu_id,
                old(deliver).obj().log(),
                final(deliver).obj().log(),
                r,
            ),
    {
        match &self.controller {
            Some(controller) => controller.get().drain_pending(vcpu_id, deliver),
            None => Ok(()),
        }
    }

    /// Delivers a message-signaled interrupt along its route.
    pub fn deliver_msi(&self, message: MsiMessage) -> (r: AxResult<()>)
        ensures
            self.msi_outcome(message, r),
    {
        let controller = match &self.controller {
            Some(controller) => controller,
            None => {
                return Err(AxError::Unsupported);
            },
        };
        let mut i: usize = 0;
        while i < self.msi_routes.len()
            invariant
                i <= self.msi_routes@.len(),
                self.controller == Some(*controller),
                forall|j: int| 0 <= j < i ==> (#[trigger] self.msi_routes@[j]).message != message,
            decreases self.msi_routes@.len() - i,
        {
            if self.msi_routes[i].message == message {
                assert(route_at(self.msi_routes@, message, i as int));
                return controller.get().inject_msi(self.msi_routes[i]);
            }
            i = i + 1;
        }
        Err(AxError::NotFound)
    }

    /// Checks that the fabric was made for a VM of the given interrupt mode.
    pub fn validate_mode(&self, mode: VMInterruptMode) -> (r: AxResult<()>)
        ensures
            r == (if self.spec_mode() == mode {
                Ok::<(), AxError>(())
            } else {
                Err(AxError::InvalidInput)
            }),
    {
        if self.mode != mode {
            return Err(AxError::InvalidInput);
        }
        Ok(())
    }
}

impl Default for InterruptFabric {
    fn default() -> (r: Self)
        ensures
            r.wf(),
            r.spec_mode() == VMInterruptMode::NoIrq,
            r.spec_sink() is None,
            r.spec_controller() is None,
            r.spec_msi_routes().len() == 0,
    {
        Self::new(VMInterruptMode::NoIrq)
    }
}

impl IrqResolver for InterruptFabric {
    /// The backend has to serve the line in that trigger mode, and the line
    /// ends in it.
    open spec fn resolve_outcome(
        &self,
        line: usize,
        trigger: InterruptTriggerMode,
        r: AxResult<IrqLine>,
    ) -> bool {
        match self.spec_sink() {
            Some(sink) => exists|v: AxResult<()>|
                {
                    &&& #[trigger] sink.obj().validate_outcome(IrqLineId(line), trigger, v)
                    &&& match v {
                        Ok(_) => {
                            &&& r is Ok
                            &&& r->Ok_0.spec_id() == IrqLineId(line)
                            &&& r->Ok_0.spec_trigger() == trigger
                            &&& r->Ok_0.spec_sink() == sink
                        },
                        Err(error) => r == Err::<IrqLine, AxError>(error),
                    }
                },
            None => r == Err::<IrqLine, AxError>(self.missing_sink()),
        }
    }

    fn resolve_irq(&self, line: usize, trigger: InterruptTriggerMode) -> (r: AxResult<IrqLine>) {
        let sink = match self.sink_for_line() {
            Ok(sink) => sink,
            Err(error) => {
                return Err(error);
            },
        };
        match sink.get().validate_line(IrqLineId(line), trigger) {
            Ok(()) => Ok(IrqLine::new(IrqLineId(line), trigger, sink.clone())),
            Err(error) => Err(error),
        }
    }
}

/// A fabric without a backend signals nothing: a VM without interrupts refuses
/// lines as invalid, any other VM as unsupported.
pub proof fn law_no_backend_refuses_lines(
    fabric: InterruptFabric,
    line: usize,
    trigger: InterruptTriggerMode,
    asserted: bool,
    level: AxResult<()>,
    pulse: AxResult<()>,
    resolved: AxResult<IrqLine>,
)
    requires
        fabric.spec_sink() is None,
        fabric.level_outcome(IrqLineId(line), asserted, level),
        fabric.pulse_outcome(IrqLineId(line), pulse),
        fabric.resolve_outcome(line, trigger, resolved),
    ensures
        level == Err::<(), AxError>(fabric.missing_sink()),
        pulse == Err::<(), AxError>(fabric.missing_sink()),
        resolved == Err::<IrqLine, AxError>(fabric.missing_sink()),
{
}

/// A VM without interrupts refuses every line as invalid, whatever is asked of
/// it.
pub proof fn law_no_irq_fabric_refuses_lines(
    fabric: InterruptFabric,
    line: usize,
    trigger: InterruptTriggerMode,
    asserted: bool,
    level: AxResult<()>,
    pulse: AxResult<()>,
    resolved: AxResult<IrqLine>,
)
    requires
        fabric.wf(),
        fabric.spec_mode() == VMInterruptMode::NoIrq,
        fabric.level_outcome(IrqLineId(line), asserted, level),
        fabric.pulse_outcome(IrqLineId(line), pulse),
        fabric.resolve_outcome(line, trigger, resolved),
    ensures
        level == Err::<(), AxError>(AxError::InvalidInput),
        pulse == Err::<(), AxError>(AxError::InvalidInput),
        resolved == Err::<IrqLine, AxError>(AxError::InvalidInput),
{
}

/// A VM without interrupts has neither backend nor controller.
pub proof fn law_no_irq_fabric_is_inert(fabric: InterruptFabric)
    requires
        fabric.wf(),
        fabric.spec_mode() == VMInterruptMode::NoIrq,
    ensures
        fabric.spec_sink() is None,
        fabric.spec_controller() is None,
{
}

/// Lines end in the installed backend: whatever is asked of a line is asked of
/// that backend, for that line.
pub proof fn law_lines_end_in_the_backend(
    fabric: InterruptFabric,
    line: usize,
    asserted: bool,
    level: AxResult<()>,
    pulse: AxResult<()>,
)
    requires
        fabric.spec_sink() is Some,
        fabric.level_outcome(IrqLineId(line), asserted, level),
        fabric.pulse_outcome(IrqLineId(line), pulse),
    ensures
        fabric.spec_sink()->0.obj().level_outcome(IrqLineId(line), asserted, level),
        fabric.spec_sink()->0.obj().pulse_outcome(IrqLineId(line), pulse),
{
}

/// A message is delivered along the first route that accepts it, to the vCPU and
/// with the vector of that route. A message without a route is not found, and
/// without a controller messages are not supported.
pub proof fn law_message_takes_the_first_route(
    fabric: InterruptFabric,
    message: MsiMessage,
    r: AxResult<()>,
    i: int,
)
    requires
        fabric.msi_outcome(message, r),
        0 <= i <= fabric.spec_msi_routes().len(),
        forall|j: int| 0 <= j < i ==> (#[trigger] fabric.spec_msi_routes()[j]).message != message,
        i < fabric.spec_msi_routes().len() ==> fabric.spec_msi_routes()[i].message == message,
    ensures
        fabric.spec_controller() is None ==> r == Err::<(), AxError>(AxError::Unsupported),
        fabric.spec_controller() is Some && i < fabric.spec_msi_routes().len()
            ==> fabric.spec_controller()->0.obj().msi_outcome(fabric.spec_msi_routes()[i], r),
        fabric.spec_controller() is Some && i == fabric.spec_msi_routes().len() ==> r == Err::<
            (),
            AxError,
        >(AxError::NotFound),
{
    if fabric.spec_controller() is Some {
        let routes = fabric.spec_msi_routes();
        if !(unrouted(routes, message) && r == Err::<(), AxError>(AxError::NotFound)) {
            let k = choose|k: int|
                #[trigger] route_at(routes, message, k)
                    && fabric.spec_controller()->0.obj().msi_outcome(routes[k], r);
            assert(routes[k].message == message);
            if i < routes.len() {
                assert(k == i);
            }
        } else if i < routes.len() {
            assert(routes[i].message != message);
        }
    }
}

/// Without a controller nothing ends, nothing is forwarded and nothing is
/// drained: an end is accepted, a host interrupt is not supported.
pub proof fn law_controller_work_needs_a_controller(
    fabric: InterruptFabric,
    vcpu_id: VCpuId,
    vector: InterruptVector,
    host_irq: usize,
    before: Seq<Delivery>,
    after: Seq<Delivery>,
    ended: AxResult<()>,
    forwarded: AxResult<()>,
    drained: AxResult<()>,
)
    requires
        fabric.eoi_outcome(vcpu_id, vector, ended),
        fabric.forward_outcome(host_irq, forwarded),
        fabric.drain_outcome(vcpu_id, before, after, drained),
    ensures
        fabric.spec_controller() is None ==> {
            &&& ended is Ok
            &&& forwarded == Err::<(), AxError>(AxError::Unsupported)
            &&& drained is Ok
            &&& after == before
        },
        fabric.spec_controller() is Some ==> {
            let controller = fabric.spec_controller()->0;
            &&& controller.obj().eoi_outcome(vcpu_id, vector, ended)
            &&& controller.obj().forward_outcome(host_irq, forwarded)
            &&& controller.obj().drain_outcome(vcpu_id, before, after, drained)
        },
{
}

} // verus!
