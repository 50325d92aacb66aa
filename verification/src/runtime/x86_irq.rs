//! x86 device polling, interrupt delivery, and forwarding of host IO APIC
//! interrupts to the VM that owns them.

use crate::error::AxResult;
use crate::irq::x86;
use crate::irq::x86::{
    host_vector_to_gsi, HOST_IOAPIC_GSI_COUNT, HOST_IOAPIC_VECTOR_BASE, PIT_TIMER_GSI,
};
use crate::irq::{InterruptDelivery, InterruptFabric};
use crate::shared::Lent;
use crate::types::{InterruptVector, VCpuId, VMInterruptMode};
use crate::vm_devices::AxVmDevices;
use vstd::prelude::*;

verus! {

/// The identifier that stands for no VM.
pub const NO_VM: usize = usize::MAX;

/// Polls the devices of a VM at the given time and returns how each poll ended.
/// A device that fails does not keep the others from being polled.
pub fn poll_devices(devices: &AxVmDevices, now_ns: u64) -> (r: Vec<AxResult<()>>)
    ensures
        r@.len() == devices@.pollable.len(),
        forall|i: int|
            0 <= i < r@.len() ==> devices@.pollable[i].obj().poll_outcome(
                now_ns,
                #[trigger] r@[i],
            ),
{
    let list = devices.pollable_devices();
    let mut results: Vec<AxResult<()>> = Vec::new();
    let mut i: usize = 0;
    while i < list.len()
        invariant
            list@ == devices@.pollable,
            i <= list@.len(),
            results@.len() == i,
            forall|j: int|
                0 <= j < i ==> devices@.pollable[j].obj().poll_outcome(
                    now_ns,
                    #[trigger] results@[j],
                ),
        decreases list@.len() - i,
    {
        results.push(list[i].get().poll(now_ns));
        i = i + 1;
    }
    results
}

/// Delivers the routed interrupts of a vCPU.
pub fn drain_routed_irqs(
    fabric: &InterruptFabric,
    vcpu_id: VCpuId,
    deliver: &mut Lent<'_, dyn InterruptDelivery>,
) -> (r: AxResult<()>)
    ensures
        fabric.drain_outcome(vcpu_id, old(deliver).obj().log(), final(deliver).obj().log(), r),
{
    fabric.drain_pending(vcpu_id, deliver)
}

/// Processes the end of an interrupt on a vCPU.
pub fn handle_eoi(fabric: &InterruptFabric, vcpu_id: VCpuId, vector: InterruptVector) -> (r:
    AxResult<()>)
    ensures
        fabric.eoi_outcome(vcpu_id, vector, r),
{
    fabric.eoi(vcpu_id, vector)
}

/// Whether a VM takes host interrupts over: it runs in passthrough mode and has
/// a controller.
pub open spec fn takes_host_irqs(mode: VMInterruptMode, fabric: InterruptFabric) -> bool {
    mode == VMInterruptMode::Passthrough && fabric.spec_controller() is Some
}

fn forwards_host_irqs(mode: VMInterruptMode, fabric: &InterruptFabric) -> (r: bool)
    ensures
        r == takes_host_irqs(mode, *fabric),
{
    mode == VMInterruptMode::Passthrough && fabric.has_controller()
}

/// What the host interrupt handlers decided.
#[derive(Clone, Copy, Debug, PartialEq, Eq, Structural)]
pub enum IrqReturn {
    /// The interrupt was not for this handler.
    Unhandled,
    /// The interrupt was taken over.
    Handled,
}

/// The forwarding of host IO APIC interrupts to one VM.
pub struct IoApicForwarding {
    enabled: bool,
    hook_registered: bool,
    forward_vm_id: usize,
    pending: usize,
    handles: [usize; 24],
}

/// Whether the bit of the input is set.
pub open spec fn bit_set(bits: usize, gsi: int) -> bool {
    bits & (1usize << gsi) != 0
}

/// The state of the forwarding.
#[verifier::ext_equal]
pub struct ForwardingModel {
    /// Whether forwarding is enabled.
    pub enabled: bool,
    /// Whether a host interrupt action was registered.
    pub hook_registered: bool,
    /// The VM that host interrupts are forwarded to.
    pub forward_vm_id: usize,
    /// Which inputs wait to be forwarded.
    pub pending: Seq<bool>,
    /// The registered host interrupt actions, zero where there is none.
    pub handles: Seq<usize>,
}

impl View for IoApicForwarding {
    type V = ForwardingModel;

    closed spec fn view(&self) -> ForwardingModel {
        ForwardingModel {
            enabled: self.enabled,
            hook_registered: self.hook_registered,
            forward_vm_id: self.forward_vm_id,
            pending: Seq::new(HOST_IOAPIC_GSI_COUNT as nat, |g: int| bit_set(self.pending, g)),
            handles: self.handles@,
        }
    }
}

/// No input waits.
pub open spec fn nothing_pending() -> Seq<bool> {
    Seq::new(HOST_IOAPIC_GSI_COUNT as nat, |g: int| false)
}

impl ForwardingModel {
    /// There is one slot per input, forwarding is enabled exactly where an
    /// action is registered, a VM is served only while it is enabled, and
    /// nothing waits for no VM.
    pub open spec fn sound(self) -> bool {
        &&& self.pending.len() == HOST_IOAPIC_GSI_COUNT
        &&& self.handles.len() == HOST_IOAPIC_GSI_COUNT
        &&& self.enabled == self.hook_registered
        &&& self.forward_vm_id != NO_VM ==> self.enabled
        &&& self.forward_vm_id == NO_VM ==> self.pending == nothing_pending()
    }

    /// Whether the host vector has an action of its own.
    pub open spec fn hooked(self, vector: usize) -> bool {
        match x86::gsi_of_host_vector(vector) {
            Some(gsi) => self.handles[gsi as int] != 0,
            None => false,
        }
    }

    /// What becomes of the state when a VM gives the forwarding up.
    pub open spec fn released(self, vm_id: usize) -> Self {
        if self.forward_vm_id == vm_id {
            ForwardingModel { forward_vm_id: NO_VM, pending: nothing_pending(), ..self }
        } else {
            self
        }
    }

    /// Whether a host interrupt is taken over.
    pub open spec fn accepts(self, irq: usize) -> bool {
        x86::gsi_of_host_vector(irq) is Some && self.forward_vm_id != NO_VM
    }

    /// What becomes of the state when a host interrupt arrives.
    pub open spec fn recorded(self, irq: usize) -> Self {
        if self.accepts(irq) {
            ForwardingModel {
                pending: self.pending.update(x86::gsi_of_host_vector(irq)->0 as int, true),
                ..self
            }
        } else {
            self
        }
    }

    /// Whether waiting interrupts are forwarded to the VM.
    pub open spec fn serves(self, vm_id: usize) -> bool {
        self.hook_registered && self.forward_vm_id == vm_id
    }
}

proof fn lemma_no_bit_set(gsi: usize)
    by (bit_vector)
    requires
        gsi < 24,
    ensures
        0usize & (1usize << gsi) == 0,
{
}

proof fn lemma_bit_recorded(bits: usize, gsi: usize, other: usize)
    by (bit_vector)
    requires
        gsi < 24,
        other < 24,
    ensures
        (bits | (1usize << gsi)) & (1usize << gsi) != 0,
        other != gsi ==> ((bits | (1usize << gsi)) & (1usize << other) != 0) == (bits & (1usize
            << other) != 0),
{
}

impl IoApicForwarding {
    /// The state is sound.
    pub open spec fn wf(&self) -> bool {
        self@.sound()
    }

    /// Creates a forwarding that serves no VM.
    pub fn new() -> (r: Self)
        ensures
            r.wf(),
            !r@.enabled,
            r@.forward_vm_id == NO_VM,
            r@.pending == nothing_pending(),
            r@.handles == Seq::new(HOST_IOAPIC_GSI_COUNT as nat, |g: int| 0usize),
    {
        let r = IoApicForwarding {
            enabled: false,
            hook_registered: false,
            forward_vm_id: NO_VM,
            pending: 0,
            handles: [0; 24],
        };
        proof {
            lemma_none_pending(r);
            assert(r@.handles =~= Seq::new(HOST_IOAPIC_GSI_COUNT as nat, |g: int| 0usize));
        }
        r
    }
}

proof fn lemma_none_pending(forwarding: IoApicForwarding)
    requires
        forwarding.pending == 0,
    ensures
        forwarding@.pending == nothing_pending(),
{
    assert forall|g: int| 0 <= g < HOST_IOAPIC_GSI_COUNT implies !#[trigger] bit_set(0usize, g) by {
        lemma_no_bit_set(g as usize);
    }
    assert(forwarding@.pending =~= nothing_pending());
}

/// Returns whether the host vector has an action of its own.
pub fn ioapic_irq_hook_registered(forwarding: &IoApicForwarding, vector: usize) -> (r: bool)
    ensures
        r == forwarding@.hooked(vector),
{
    match host_vector_to_gsi(vector) {
        Some(gsi) => forwarding.handles[gsi] != 0,
        None => false,
    }
}

/// Gives the forwarding up if the VM owns it: what waits is dropped.
pub fn disable_ioapic_irq_forwarding_for_vm(forwarding: &mut IoApicForwarding, vm_id: usize)
    ensures
        final(forwarding)@ == old(forwarding)@.released(vm_id),
        old(forwarding).wf() ==> final(forwarding).wf(),
{
    if forwarding.forward_vm_id != vm_id {
        return;
    }
    forwarding.forward_vm_id = NO_VM;
    forwarding.pending = 0;
    proof {
        lemma_none_pending(*forwarding);
        assert(forwarding@ =~= old(forwarding)@.released(vm_id));
    }
}

/// Forwards a host vector of the IO APIC to the VM's controller. Returns how
/// that ended, or nothing if the vector is not one of the IO APIC.
pub fn forward_host_vector(fabric: &InterruptFabric, vector: usize) -> (r: Option<AxResult<()>>)
    ensures
        match x86::gsi_of_host_vector(vector) {
            Some(gsi) => r is Some && fabric.forward_outcome(gsi, r->0),
            None => r is None,
        },
{
    match host_vector_to_gsi(vector) {
        Some(gsi) => Some(fabric.forward_host_irq(gsi)),
        None => None,
    }
}

/// Whether an interrupt that made the guest exit is forwarded at once: the VM
/// takes host interrupts over, the vector is not the timer's, and no action of
/// its own records it.
pub open spec fn forwarded_on_exit(
    forwarding: ForwardingModel,
    mode: VMInterruptMode,
    fabric: InterruptFabric,
    vector: usize,
) -> bool {
    &&& takes_host_irqs(mode, fabric)
    &&& vector != HOST_IOAPIC_VECTOR_BASE + PIT_TIMER_GSI
    &&& !forwarding.hooked(vector)
    &&& x86::gsi_of_host_vector(vector) is Some
}

/// Forwards a host interrupt that made the guest exit. Returns how that ended,
/// or nothing if the interrupt is not forwarded.
pub fn forward_passthrough_irq_from_vmexit(
    forwarding: &IoApicForwarding,
    mode: VMInterruptMode,
    fabric: &InterruptFabric,
    vector: usize,
) -> (r: Option<AxResult<()>>)
    ensures
        if forwarded_on_exit(forwarding@, mode, *fabric, vector) {
            r is Some && fabric.forward_outcome(x86::gsi_of_host_vector(vector)->0, r->0)
        } else {
            r is None
        },
{
    if !forwards_host_irqs(mode, fabric) {
        return None;
    }
    if vector == HOST_IOAPIC_VECTOR_BASE + PIT_TIMER_GSI {
        return None;
    }
    if ioapic_irq_hook_registered(forwarding, vector) {
        return None;
    }
    forward_host_vector(fabric, vector)
}

/// Records a host interrupt for the VM that owns the forwarding.
pub fn ioapic_irq_forwarding_handler(forwarding: &mut IoApicForwarding, irq: usize) -> (r: IrqReturn)
    ensures
        r == (if old(forwarding)@.accepts(irq) {
            IrqReturn::Handled
        } else {
            IrqReturn::Unhandled
        }),
        final(forwarding)@ == old(forwarding)@.recorded(irq),
        old(forwarding).wf() ==> final(forwarding).wf(),
{
    let gsi: usize = match host_vector_to_gsi(irq) {
        Some(gsi) => gsi,
        None => {
            return IrqReturn::Unhandled;
        },
    };
    if forwarding.forward_vm_id == NO_VM {
        return IrqReturn::Unhandled;
    }
    let ghost before = forwarding.pending;
    forwarding.pending = forwarding.pending | (1usize << gsi);
    proof {
        assert forall|g: int| 0 <= g < HOST_IOAPIC_GSI_COUNT implies #[trigger] bit_set(
            forwarding.pending,
            g,
        ) == (g == gsi || bit_set(before, g)) by {
            lemma_bit_recorded(before, gsi, g as usize);
        }
        assert(forwarding@ =~= old(forwarding)@.recorded(irq));
    }
    IrqReturn::Handled
}

/// The inputs below `n` that wait, in order.
pub open spec fn waiting(pending: Seq<bool>, n: int) -> Seq<usize>
    decreases n,
{
    if n <= 0 {
        Seq::empty()
    } else if pending[n - 1] {
        waiting(pending, n - 1).push((n - 1) as usize)
    } else {
        waiting(pending, n - 1)
    }
}

/// How the forwarding of one input ended.
#[derive(Clone, Copy, Debug, PartialEq, Eq)]
pub struct ForwardedIrq {
    /// The input.
    pub gsi: usize,
    /// How the forwarding ended.
    pub result: AxResult<()>,
}

/// Forwards the waiting inputs to the VM that owns the forwarding, in order,
/// and returns how each ended.
pub fn drain_pending_ioapic_irqs(
    forwarding: &mut IoApicForwarding,
    vm_id: usize,
    mode: VMInterruptMode,
    fabric: &InterruptFabric,
) -> (r: Vec<ForwardedIrq>)
    ensures
        takes_host_irqs(mode, *fabric) && old(forwarding)@.serves(vm_id) ==> {
            let gsis = waiting(old(forwarding)@.pending, HOST_IOAPIC_GSI_COUNT as int);
            &&& final(forwarding)@ == (ForwardingModel {
                pending: nothing_pending(),
                ..old(forwarding)@
            })
            &&& r@.len() == gsis.len()
            &&& forall|i: int|
                0 <= i < r@.len() ==> (#[trigger] r@[i]).gsi == gsis[i] && fabric.forward_outcome(
                    gsis[i],
                    r@[i].result,
                )
        },
        !(takes_host_irqs(mode, *fabric) && old(forwarding)@.serves(vm_id)) ==> {
            &&& final(forwarding)@ == old(forwarding)@
            &&& r@.len() == 0
        },
        old(forwarding).wf() ==> final(forwarding).wf(),
{
    let mut forwarded: Vec<ForwardedIrq> = Vec::new();
    if !forwards_host_irqs(mode, fabric) {
        return forwarded;
    }
    if !forwarding.hook_registered {
        return forwarded;
    }
    if forwarding.forward_vm_id != vm_id {
        return forwarded;
    }
    let pending: usize = forwarding.pending;
    let ghost lines = forwarding@.pending;
    forwarding.pending = 0;
    proof {
        lemma_none_pending(*forwarding);
    }
    let mut gsi: usize = 0;
    while gsi < HOST_IOAPIC_GSI_COUNT
        invariant
            gsi <= HOST_IOAPIC_GSI_COUNT,
            lines == Seq::new(HOST_IOAPIC_GSI_COUNT as nat, |g: int| bit_set(pending, g)),
            forwarded@.len() == waiting(lines, gsi as int).len(),
            forall|i: int|
                0 <= i < forwarded@.len() ==> (#[trigger] forwarded@[i]).gsi == waiting(
                    lines,
                    gsi as int,
                )[i] && fabric.forward_outcome(waiting(lines, gsi as int)[i], forwarded@[i].result),
        decreases HOST_IOAPIC_GSI_COUNT - gsi,
    {
        assert(lines[gsi as int] == bit_set(pending, gsi as int));
        if pending & (1usize << gsi) != 0 {
            let result = fabric.forward_host_irq(gsi);
            forwarded.push(ForwardedIrq { gsi, result });
        }
        gsi = gsi + 1;
    }
    forwarded
}

/// What became of an attempt to enable forwarding for a VM.
#[derive(Clone, Copy, Debug, PartialEq, Eq, Structural)]
pub enum ForwardingStart {
    /// The VM does not take host interrupts over.
    NotTaken,
    /// Another VM owns the forwarding.
    OwnedBy(usize),
    /// Forwarding is enabled already.
    AlreadyEnabled,
    /// Forwarding was enabled with that many new actions.
    Enabled(usize),
    /// No action could be registered.
    NothingRegistered,
}

/// How the requests for host interrupt actions ended, input by input: none was
/// made where there is an action already.
pub struct ForwardingReport {
    /// What became of the attempt.
    pub start: ForwardingStart,
    /// The requests, by input. Empty if it did not come to requests.
    pub requests: Vec<Option<AxResult<usize>>>,
}

/// Number of requests among the first `n` that were granted.
pub open spec fn granted(requests: Seq<Option<AxResult<usize>>>, n: int) -> nat
    decreases n,
{
    if n <= 0 {
        0
    } else if requests[n - 1] is Some && requests[n - 1]->0 is Ok {
        granted(requests, n - 1) + 1
    } else {
        granted(requests, n - 1)
    }
}

/// The action of an input after its request.
pub open spec fn handle_after(before: usize, request: Option<AxResult<usize>>) -> usize {
    match request {
        Some(Ok(handle)) => handle,
        _ => before,
    }
}

/// A request for a host interrupt action: the host vector, and the handle of
/// the action or why there is none.
pub type ActionRequest = (usize, AxResult<usize>);

/// Registers host interrupt actions.
///
/// The record is the implementor's own account of the calls: each adds one
/// entry. A verified implementor that keeps no such account at run time holds it
/// as a ghost value; with any other it is only thought of.
pub trait IrqActions {
    /// The requests made so far, oldest first.
    open spec fn log(&self) -> Seq<ActionRequest> {
        arbitrary()
    }

    /// Requests an action for a host vector and returns its handle.
    fn request(&mut self, vector: usize) -> (r: AxResult<usize>)
        ensures
            final(self).log() == old(self).log().push((vector, r)),
    ;
}

/// The record of the requests for the first `n` inputs, in order.
pub open spec fn made(requests: Seq<Option<AxResult<usize>>>, n: int) -> Seq<ActionRequest>
    decreases n,
{
    if n <= 0 {
        Seq::empty()
    } else {
        match requests[n - 1] {
            Some(result) => made(requests, n - 1).push(
                ((HOST_IOAPIC_VECTOR_BASE + (n - 1)) as usize, result),
            ),
            None => made(requests, n - 1),
        }
    }
}

/// Whether an action was requested once, in order, for every input that has
/// none, and no other was.
pub open spec fn requests_made(
    handles: Seq<usize>,
    requests: Seq<Option<AxResult<usize>>>,
    log: Seq<ActionRequest>,
    log_after: Seq<ActionRequest>,
) -> bool {
    &&& requests.len() == HOST_IOAPIC_GSI_COUNT
    &&& forall|g: int|
        0 <= g < HOST_IOAPIC_GSI_COUNT ==> ((#[trigger] requests[g]) is None) == (handles[g] != 0)
    &&& log_after == log + made(requests, HOST_IOAPIC_GSI_COUNT as int)
}

impl ForwardingModel {
    /// What stands in the way of requesting actions for the VM, if anything.
    pub open spec fn obstacle(
        self,
        vm_id: usize,
        mode: VMInterruptMode,
        fabric: InterruptFabric,
    ) -> Option<ForwardingStart> {
        if !takes_host_irqs(mode, fabric) {
            Some(ForwardingStart::NotTaken)
        } else if self.forward_vm_id != NO_VM && self.forward_vm_id != vm_id {
            Some(ForwardingStart::OwnedBy(self.forward_vm_id))
        } else if self.enabled {
            Some(ForwardingStart::AlreadyEnabled)
        } else {
            None
        }
    }

    /// The state after the requests ended: the VM is served if one was granted.
    pub open spec fn after_requests(
        self,
        vm_id: usize,
        requests: Seq<Option<AxResult<usize>>>,
    ) -> Self {
        let any = granted(requests, HOST_IOAPIC_GSI_COUNT as int) > 0;
        ForwardingModel {
            enabled: any,
            hook_registered: self.hook_registered || any,
            forward_vm_id: if any {
                vm_id
            } else {
                NO_VM
            },
            handles: Seq::new(
                self.handles.len(),
                |g: int| handle_after(self.handles[g], requests[g]),
            ),
            ..self
        }
    }
}

/// Enables the forwarding of host interrupts to a VM that takes them over,
/// unless another VM owns it: requests an action for each host vector of the IO
/// APIC that has none.
pub fn enable_ioapic_irq_forwarding<A: IrqActions + ?Sized>(
    forwarding: &mut IoApicForwarding,
    vm_id: usize,
    mode: VMInterruptMode,
    fabric: &InterruptFabric,
    actions: &mut A,
) -> (r: ForwardingReport)
    ensures
        match old(forwarding)@.obstacle(vm_id, mode, *fabric) {
            Some(obstacle) => {
                &&& r.start == obstacle
                &&& r.requests@.len() == 0
                &&& final(actions).log() == old(actions).log()
                &&& final(forwarding)@ == (if obstacle == ForwardingStart::AlreadyEnabled {
                    ForwardingModel { forward_vm_id: vm_id, ..old(forwarding)@ }
                } else {
                    old(forwarding)@
                })
            },
            None => {
                let count = granted(r.requests@, HOST_IOAPIC_GSI_COUNT as int);
                &&& requests_made(
                    old(forwarding)@.handles,
                    r.requests@,
                    old(actions).log(),
                    final(actions).log(),
                )
                &&& r.start == (if count > 0 {
                    ForwardingStart::Enabled(count as usize)
                } else {
                    ForwardingStart::NothingRegistered
                })
                &&& final(forwarding)@ == old(forwarding)@.after_requests(vm_id, r.requests@)
            },
        },
        old(forwarding).wf() ==> final(forwarding).wf(),
{
    if !forwards_host_irqs(mode, fabric) {
        return ForwardingReport { start: ForwardingStart::NotTaken, requests: Vec::new() };
    }
    if forwarding.forward_vm_id != NO_VM && forwarding.forward_vm_id != vm_id {
        return ForwardingReport {
            start: ForwardingStart::OwnedBy(forwarding.forward_vm_id),
            requests: Vec::new(),
        };
    }
    forwarding.forward_vm_id = vm_id;
    if forwarding.enabled {
        assert(forwarding@ =~= (ForwardingModel { forward_vm_id: vm_id, ..old(forwarding)@ }));
        return ForwardingReport { start: ForwardingStart::AlreadyEnabled, requests: Vec::new() };
    }
    forwarding.enabled = true;
    let ghost log = actions.log();
    let ghost before = old(forwarding)@;
    let mut requests: Vec<Option<AxResult<usize>>> = Vec::new();
    let mut registered: usize = 0;
    let mut gsi: usize = 0;
    proof {
        assert(log + made(requests@, 0) =~= log);
    }
    while gsi < HOST_IOAPIC_GSI_COUNT
        invariant
            log == old(actions).log(),
            actions.log() == log + made(requests@, gsi as int),
            gsi <= HOST_IOAPIC_GSI_COUNT,
            before == old(forwarding)@,
            before.handles.len() == HOST_IOAPIC_GSI_COUNT,
            forwarding.enabled,
            forwarding.forward_vm_id == vm_id,
            forwarding.hook_registered == before.hook_registered,
            forwarding@.pending == before.pending,
            requests@.len() == gsi,
            registered == granted(requests@, gsi as int),
            registered <= gsi,
            forall|g: int|
                0 <= g < gsi ==> ((#[trigger] requests@[g]) is None) == (before.handles[g] != 0),
            forall|g: int|
                0 <= g < gsi ==> #[trigger] forwarding.handles@[g] == handle_after(
                    before.handles[g],
                    requests@[g],
                ),
            forall|g: int|
                gsi <= g < HOST_IOAPIC_GSI_COUNT ==> #[trigger] forwarding.handles@[g]
                    == before.handles[g],
        decreases HOST_IOAPIC_GSI_COUNT - gsi,
    {
        let ghost earlier = requests@;
        assert(forwarding.handles@[gsi as int] == before.handles[gsi as int]);
        if forwarding.handles[gsi] != 0 {
            requests.push(None);
        } else {
            let outcome = actions.request(HOST_IOAPIC_VECTOR_BASE + gsi);
            if let Ok(handle) = outcome {
                forwarding.handles[gsi] = handle;
                registered = registered + 1;
            }
            requests.push(Some(outcome));
        }
        proof {
            lemma_granted_prefix(earlier, requests@, gsi as int);
            lemma_made_prefix(earlier, requests@, gsi as int);
            assert(actions.log() =~= log + made(requests@, gsi + 1));
            assert(forall|g: int| 0 <= g < gsi ==> #[trigger] requests@[g] == earlier[g]);
        }
        gsi = gsi + 1;
    }
    if registered != 0 {
        forwarding.hook_registered = true;
        proof {
            assert(forwarding@ =~= before.after_requests(vm_id, requests@));
        }
        ForwardingReport { start: ForwardingStart::Enabled(registered), requests }
    } else {
        forwarding.enabled = false;
        forwarding.forward_vm_id = NO_VM;
        proof {
            assert(forwarding@ =~= before.after_requests(vm_id, requests@));
        }
        ForwardingReport { start: ForwardingStart::NothingRegistered, requests }
    }
}

proof fn lemma_granted_prefix(
    a: Seq<Option<AxResult<usize>>>,
    b: Seq<Option<AxResult<usize>>>,
    n: int,
)
    requires
        0 <= n <= a.len(),
        n <= b.len(),
        forall|i: int| 0 <= i < n ==> a[i] == #[trigger] b[i],
    ensures
        granted(a, n) == granted(b, n),
    decreases n,
{
    if n > 0 {
        lemma_granted_prefix(a, b, n - 1);
        assert(a[n - 1] == b[n - 1]);
    }
}

proof fn lemma_made_prefix(
    a: Seq<Option<AxResult<usize>>>,
    b: Seq<Option<AxResult<usize>>>,
    n: int,
)
    requires
        0 <= n <= a.len(),
        n <= b.len(),
        forall|i: int| 0 <= i < n ==> a[i] == #[trigger] b[i],
    ensures
        made(a, n) == made(b, n),
    decreases n,
{
    if n > 0 {
        lemma_made_prefix(a, b, n - 1);
        assert(a[n - 1] == b[n - 1]);
    }
}

/// An action is requested once for every input that asks for one, in ascending
/// order of the vectors, and for no other.
pub proof fn law_actions_are_requested_once(requests: Seq<Option<AxResult<usize>>>, n: int)
    requires
        0 <= n <= HOST_IOAPIC_GSI_COUNT,
        requests.len() == HOST_IOAPIC_GSI_COUNT,
    ensures
        forall|i: int, j: int|
            0 <= i < j < made(requests, n).len() ==> (#[trigger] made(requests, n)[i]).0 < (
            #[trigger] made(requests, n)[j]).0,
        forall|i: int|
            0 <= i < made(requests, n).len() ==> {
                let entry = #[trigger] made(requests, n)[i];
                &&& HOST_IOAPIC_VECTOR_BASE <= entry.0 < HOST_IOAPIC_VECTOR_BASE + n
                &&& requests[entry.0 - HOST_IOAPIC_VECTOR_BASE] == Some(entry.1)
            },
        forall|g: int|
            0 <= g < n && (#[trigger] requests[g]) is Some ==> made(requests, n).contains(
                ((HOST_IOAPIC_VECTOR_BASE + g) as usize, requests[g]->0),
            ),
    decreases n,
{
    if n > 0 {
        law_actions_are_requested_once(requests, n - 1);
        let front = made(requests, n - 1);
        let all = made(requests, n);
        assert forall|i: int, j: int| 0 <= i < j < all.len() implies (#[trigger] all[i]).0 < (
        #[trigger] all[j]).0 by {
            assert(all[i] == front[i]);
            if j < front.len() {
                assert(all[j] == front[j]);
            }
        }
        assert forall|i: int| 0 <= i < all.len() implies ({
            let entry = #[trigger] all[i];
            &&& HOST_IOAPIC_VECTOR_BASE <= entry.0 < HOST_IOAPIC_VECTOR_BASE + n
            &&& requests[entry.0 - HOST_IOAPIC_VECTOR_BASE] == Some(entry.1)
        }) by {
            if i < front.len() {
                assert(all[i] == front[i]);
            }
        }
        assert forall|g: int| 0 <= g < n && (#[trigger] requests[g]) is Some implies all.contains(
            ((HOST_IOAPIC_VECTOR_BASE + g) as usize, requests[g]->0),
        ) by {
            let entry = ((HOST_IOAPIC_VECTOR_BASE + g) as usize, requests[g]->0);
            if g < n - 1 {
                assert(front.contains(entry));
                let i = choose|i: int| 0 <= i < front.len() && front[i] == entry;
                assert(all[i] == entry);
            } else {
                assert(all[front.len() as int] == entry);
            }
        }
    }
}

/// Every input that waits is forwarded once, in ascending order, and no other.
pub proof fn law_waiting_inputs_are_forwarded_once(pending: Seq<bool>, n: int)
    requires
        0 <= n <= HOST_IOAPIC_GSI_COUNT,
        pending.len() == HOST_IOAPIC_GSI_COUNT,
    ensures
        forall|g: usize| #[trigger] waiting(pending, n).contains(g) <==> g < n && pending[g as int],
        forall|i: int, j: int|
            0 <= i < j < waiting(pending, n).len() ==> #[trigger] waiting(pending, n)[i]
                < #[trigger] waiting(pending, n)[j],
    decreases n,
{
    if n > 0 {
        law_waiting_inputs_are_forwarded_once(pending, n - 1);
        let front = waiting(pending, n - 1);
        let all = waiting(pending, n);
        assert forall|i: int| 0 <= i < front.len() implies #[trigger] front[i] < n - 1 by {
            assert(front.contains(front[i]));
        }
        assert forall|g: usize| #[trigger] all.contains(g) <==> g < n && pending[g as int] by {
            if all.contains(g) {
                let i = choose|i: int| 0 <= i < all.len() && all[i] == g;
                if i < front.len() {
                    assert(front[i] == g);
                    assert(front.contains(g));
                }
            }
            if g < n && pending[g as int] {
                if g < n - 1 {
                    assert(front.contains(g));
                    let i = choose|i: int| 0 <= i < front.len() && front[i] == g;
                    assert(all[i] == g);
                } else {
                    assert(all[front.len() as int] == g);
                }
            }
        }
        assert forall|i: int, j: int| 0 <= i < j < all.len() implies #[trigger] all[i]
            < #[trigger] all[j] by {
            assert(all[i] == front[i]);
            if j < front.len() {
                assert(all[j] == front[j]);
            }
        }
    }
}

/// A host interrupt that was taken over is forwarded at the next opportunity.
pub proof fn law_recorded_interrupt_is_forwarded(model: ForwardingModel, irq: usize)
    requires
        model.pending.len() == HOST_IOAPIC_GSI_COUNT,
        model.accepts(irq),
    ensures
        waiting(model.recorded(irq).pending, HOST_IOAPIC_GSI_COUNT as int).contains(
            x86::gsi_of_host_vector(irq)->0,
        ),
{
    law_waiting_inputs_are_forwarded_once(
        model.recorded(irq).pending,
        HOST_IOAPIC_GSI_COUNT as int,
    );
}

/// A VM that gave the forwarding up receives nothing more: what waited is
/// dropped and new host interrupts are not taken over.
pub proof fn law_released_forwarding_takes_nothing(model: ForwardingModel, irq: usize)
    ensures
        model.released(model.forward_vm_id).pending == nothing_pending(),
        !model.released(model.forward_vm_id).accepts(irq),
{
}

/// The forwarding has one owner: while a VM owns it, no other VM can enable it
/// or release it.
pub proof fn law_forwarding_has_one_owner(
    model: ForwardingModel,
    vm_id: usize,
    mode: VMInterruptMode,
    fabric: InterruptFabric,
)
    requires
        model.forward_vm_id != NO_VM,
        model.forward_vm_id != vm_id,
        takes_host_irqs(mode, fabric),
    ensures
        model.obstacle(vm_id, mode, fabric) == Some(
            ForwardingStart::OwnedBy(model.forward_vm_id),
        ),
        model.released(vm_id) == model,
        !model.serves(vm_id),
{
}

/// After a release any VM can take the forwarding over, with the actions that
/// are registered already.
pub proof fn law_released_forwarding_can_be_taken(
    model: ForwardingModel,
    vm_id: usize,
    mode: VMInterruptMode,
    fabric: InterruptFabric,
)
    requires
        takes_host_irqs(mode, fabric),
        model.enabled,
    ensures
        model.released(model.forward_vm_id).obstacle(vm_id, mode, fabric) == Some(
            ForwardingStart::AlreadyEnabled,
        ),
{
}

/// A host interrupt is taken over exactly when its vector is one of the IO APIC's
/// and a VM owns the forwarding. It then marks its own input as waiting, and
/// nothing else changes.
pub proof fn law_host_interrupt_marks_its_input(model: ForwardingModel, irq: usize)
    requires
        model.pending.len() == 24,
    ensures
        model.accepts(irq) <==> 0x20 <= irq < 0x38 && model.forward_vm_id != usize::MAX,
        ({
            let after = model.recorded(irq);
            &&& after.enabled == model.enabled
            &&& after.hook_registered == model.hook_registered
            &&& after.forward_vm_id == model.forward_vm_id
            &&& after.handles == model.handles
            &&& after.pending.len() == 24
            &&& forall|g: int|
                0 <= g < 24 ==> #[trigger] after.pending[g] == (model.pending[g] || (0x20 <= irq
                    < 0x38 && model.forward_vm_id != usize::MAX && g == irq - 0x20))
        }),
{
}

/// A host interrupt that made the guest exit is forwarded exactly when the VM
/// passes interrupts through, has a controller, the vector is one of the IO APIC's
/// but not the timer's, and no action records it.
pub proof fn law_exit_forwards_what_nobody_records(
    model: ForwardingModel,
    mode: VMInterruptMode,
    fabric: InterruptFabric,
    vector: usize,
)
    ensures
        forwarded_on_exit(model, mode, fabric, vector) <==> {
            &&& mode == VMInterruptMode::Passthrough
            &&& fabric.spec_controller() is Some
            &&& 0x21 <= vector < 0x38
            &&& model.handles[vector - 0x20] == 0
        },
        model.hooked(vector) <==> 0x20 <= vector < 0x38 && model.handles[vector - 0x20] != 0,
{
}

/// The granted requests are counted one by one.
pub proof fn law_granted_requests_are_counted(requests: Seq<Option<AxResult<usize>>>, n: int)
    requires
        0 <= n <= requests.len(),
    ensures
        granted(requests, n) == requests.take(n).filter(
            |request: Option<AxResult<usize>>| request is Some && request->0 is Ok,
        ).len(),
        granted(requests, n) > 0 <==> exists|g: int|
            0 <= g < n && (#[trigger] requests[g]) is Some && requests[g]->0 is Ok,
    decreases n,
{
    reveal(Seq::filter);
    let ok = |request: Option<AxResult<usize>>| request is Some && request->0 is Ok;
    if n > 0 {
        law_granted_requests_are_counted(requests, n - 1);
        assert(requests.take(n).drop_last() =~= requests.take(n - 1));
        assert(requests.take(n).last() == requests[n - 1]);
        if granted(requests, n) > 0 && !(requests[n - 1] is Some && requests[n - 1]->0 is Ok) {
            let g = choose|g: int|
                0 <= g < n - 1 && (#[trigger] requests[g]) is Some && requests[g]->0 is Ok;
            assert(requests[g] is Some);
        }
    } else {
        assert(requests.take(0).filter(ok).len() == 0);
    }
}

/// What the requests lead to: the VM owns the forwarding exactly when one was
/// granted, each input has the handle that was granted for it or the one that it
/// had, and what waits stays.
pub proof fn law_granted_request_starts_forwarding(
    model: ForwardingModel,
    vm_id: usize,
    requests: Seq<Option<AxResult<usize>>>,
    gsi: int,
)
    requires
        model.handles.len() == 24,
        requests.len() == 24,
        0 <= gsi < 24,
    ensures
        ({
            let any = exists|g: int|
                0 <= g < 24 && (#[trigger] requests[g]) is Some && requests[g]->0 is Ok;
            let after = model.after_requests(vm_id, requests);
            &&& after.enabled == any
            &&& after.hook_registered == (model.hook_registered || any)
            &&& after.forward_vm_id == (if any {
                vm_id
            } else {
                usize::MAX
            })
            &&& after.pending == model.pending
            &&& requests[gsi] is Some && requests[gsi]->0 is Ok ==> after.handles[gsi]
                == requests[gsi]->0->Ok_0
            &&& !(requests[gsi] is Some && requests[gsi]->0 is Ok) ==> after.handles[gsi]
                == model.handles[gsi]
        }),
{
    law_granted_requests_are_counted(requests, 24);
}

/// What stands in the way of enabling the forwarding, in this order: the VM does
/// not pass interrupts through or has no controller, another VM owns the
/// forwarding, or it is enabled already.
pub proof fn law_obstacles_to_forwarding(
    model: ForwardingModel,
    vm_id: usize,
    mode: VMInterruptMode,
    fabric: InterruptFabric,
)
    ensures
        ({
            let takes = mode == VMInterruptMode::Passthrough && fabric.spec_controller() is Some;
            let foreign = model.forward_vm_id != usize::MAX && model.forward_vm_id != vm_id;
            let obstacle = model.obstacle(vm_id, mode, fabric);
            &&& obstacle == Some(ForwardingStart::NotTaken) <==> !takes
            &&& obstacle == Some(ForwardingStart::OwnedBy(model.forward_vm_id)) <==> takes && foreign
            &&& obstacle == Some(ForwardingStart::AlreadyEnabled) <==> takes && !foreign
                && model.enabled
            &&& obstacle is None <==> takes && !foreign && !model.enabled
        }),
{
}

/// A release by the owner leaves the actions registered and nobody as owner, with
/// nothing waiting. A release by anyone else does nothing.
pub proof fn law_release_is_the_owners(model: ForwardingModel, vm_id: usize, gsi: int)
    requires
        0 <= gsi < 24,
    ensures
        ({
            let after = model.released(vm_id);
            &&& after.enabled == model.enabled
            &&& after.hook_registered == model.hook_registered
            &&& after.handles == model.handles
            &&& model.forward_vm_id == vm_id ==> after.forward_vm_id == usize::MAX
                && after.pending.len() == 24 && !after.pending[gsi]
            &&& model.forward_vm_id != vm_id ==> after == model
            &&& model.serves(vm_id) <==> model.hook_registered && model.forward_vm_id == vm_id
        }),
{
}

} // verus!
