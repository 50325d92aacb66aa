//! x86 virtual IO APIC interrupt backend and the set-up of its devices.

use crate::device_ops::MmioDevice;
use crate::error::{AxError, AxResult};
use crate::factory;
use crate::factory::{
    DeviceBuildContext, DeviceBundle, DeviceFactory, DeviceFactoryRegistry, DeviceRegistration,
};
use crate::ioapic::{EmulatedIoApic, IoApicInterrupt, IoApicModel, IOAPIC_GSI_COUNT};
use crate::irq::line::{IrqLine, IrqResolver, IrqSink};
use crate::irq::queue;
use crate::irq::queue::{PendingQueue, QueuedInterrupt};
use crate::irq::router::MsiRoute;
use crate::irq::{
    Delivery, InterruptControllerOps, InterruptDelivery, InterruptFabric, PendingInterrupt,
};
use crate::shared::{Borrowed, Shared};
use crate::types::{
    EmulatedDeviceConfig, EmulatedDeviceType, GuestPhysAddr, InterruptTriggerMode,
    InterruptVector, IrqLineId, VCpuId, VMInterruptMode, BSP_VCPU_ID,
};
use vstd::prelude::*;

verus! {

/// Host vector of the first IO APIC input.
pub const HOST_IOAPIC_VECTOR_BASE: usize = 0x20;

/// Number of host IO APIC inputs that can be forwarded.
pub const HOST_IOAPIC_GSI_COUNT: usize = IOAPIC_GSI_COUNT;

/// IO APIC input of the PIT timer.
pub const PIT_TIMER_GSI: usize = 0;

/// IO APIC input of the first serial port.
pub const COM1_GSI: usize = 4;

/// First port of the first serial port.
pub const COM1_PORT_BASE: usize = 0x3f8;

/// Number of ports of the first serial port.
pub const COM1_PORT_LENGTH: usize = 0x8;

/// First port of the PIT timer.
pub const PIT_PORT_BASE: usize = 0x40;

/// Number of ports of the PIT timer.
pub const PIT_PORT_LENGTH: usize = 0x22;

/// The IO APIC input behind a host vector.
pub open spec fn gsi_of_host_vector(vector: usize) -> Option<usize> {
    if HOST_IOAPIC_VECTOR_BASE <= vector < HOST_IOAPIC_VECTOR_BASE + HOST_IOAPIC_GSI_COUNT {
        Some((vector - HOST_IOAPIC_VECTOR_BASE) as usize)
    } else {
        None
    }
}

/// Converts a host IO APIC vector into its GSI.
pub fn host_vector_to_gsi(vector: usize) -> (r: Option<usize>)
    ensures
        r == gsi_of_host_vector(vector),
{
    match vector.checked_sub(HOST_IOAPIC_VECTOR_BASE) {
        Some(gsi) => if gsi < HOST_IOAPIC_GSI_COUNT {
            Some(gsi)
        } else {
            None
        },
        None => None,
    }
}

/// Different host vectors of the IO APIC have different inputs, and every input
/// has one.
pub proof fn law_host_vectors_and_inputs_correspond(a: usize, b: usize, gsi: usize)
    requires
        gsi < HOST_IOAPIC_GSI_COUNT,
        gsi_of_host_vector(a) is Some,
        gsi_of_host_vector(a) == gsi_of_host_vector(b),
    ensures
        a == b,
        gsi_of_host_vector((HOST_IOAPIC_VECTOR_BASE + gsi) as usize) == Some(gsi),
{
}

/// The trigger mode of a routed interrupt.
pub open spec fn trigger_of(interrupt: IoApicInterrupt) -> InterruptTriggerMode {
    if interrupt.level_triggered {
        InterruptTriggerMode::LevelTriggered
    } else {
        InterruptTriggerMode::EdgeTriggered
    }
}

/// A routed interrupt as an entry of the queue.
pub open spec fn entry_of(vcpu_id: VCpuId, interrupt: IoApicInterrupt) -> QueuedInterrupt {
    QueuedInterrupt {
        vcpu_id,
        interrupt: PendingInterrupt {
            vector: interrupt.vector as usize,
            trigger: trigger_of(interrupt),
        },
    }
}

/// The queue with a routed interrupt added, if there is one.
pub open spec fn with_routed(
    queue: Seq<QueuedInterrupt>,
    vcpu_id: VCpuId,
    interrupt: Option<IoApicInterrupt>,
) -> Seq<QueuedInterrupt> {
    match interrupt {
        Some(interrupt) => queue.push(entry_of(vcpu_id, interrupt)),
        None => queue,
    }
}

/// The queue with routed line interrupts added.
pub open spec fn with_all_routed(
    queue: Seq<QueuedInterrupt>,
    interrupts: Seq<IoApicInterrupt>,
) -> Seq<QueuedInterrupt> {
    queue + Seq::new(interrupts.len(), |i: int| entry_of(BSP_VCPU_ID, interrupts[i]))
}

/// The virtual IO APIC of a VM with the interrupts that it routed.
pub struct X86InterruptBackend {
    ioapic: EmulatedIoApic,
    pending: PendingQueue,
}

impl X86InterruptBackend {
    /// The virtual IO APIC.
    pub closed spec fn spec_ioapic(&self) -> EmulatedIoApic {
        self.ioapic
    }

    /// The interrupts that wait for delivery, oldest first.
    pub closed spec fn spec_pending(&self) -> Seq<QueuedInterrupt> {
        self.pending@
    }

    /// The IO APIC is well-formed.
    pub open spec fn wf(&self) -> bool {
        self.spec_ioapic().wf()
    }

    /// Creates a backend around an IO APIC, with nothing queued.
    pub fn new(ioapic: EmulatedIoApic) -> (r: Self)
        ensures
            r.spec_ioapic() == ioapic,
            r.spec_pending() == Seq::<QueuedInterrupt>::empty(),
    {
        X86InterruptBackend { ioapic, pending: PendingQueue::new() }
    }

    /// Returns the IO APIC.
    pub fn ioapic(&self) -> (r: &EmulatedIoApic)
        ensures
            *r == self.spec_ioapic(),
    {
        &self.ioapic
    }

    /// Returns the IO APIC for guest accesses.
    pub fn ioapic_mut(&mut self) -> (r: &mut EmulatedIoApic)
        ensures
            *r == old(self).spec_ioapic(),
            final(self).spec_ioapic() == *final(r),
            final(self).spec_pending() == old(self).spec_pending(),
    {
        &mut self.ioapic
    }

    /// Checks that the IO APIC has the input.
    pub fn validate_gsi(gsi: usize) -> (r: AxResult<()>)
        ensures
            r == (if gsi < IOAPIC_GSI_COUNT {
                Ok::<(), AxError>(())
            } else {
                Err(AxError::InvalidInput)
            }),
    {
        if gsi >= IOAPIC_GSI_COUNT {
            return Err(AxError::InvalidInput);
        }
        Ok(())
    }

    fn queue_routed(&mut self, vcpu_id: VCpuId, interrupt: Option<IoApicInterrupt>)
        ensures
            final(self).spec_pending() == with_routed(old(self).spec_pending(), vcpu_id, interrupt),
            final(self).spec_ioapic() == old(self).spec_ioapic(),
    {
        let interrupt = match interrupt {
            Some(interrupt) => interrupt,
            None => {
                return;
            },
        };
        self.pending.push_back(
            QueuedInterrupt {
                vcpu_id,
                interrupt: PendingInterrupt {
                    vector: interrupt.vector as usize,
                    trigger: if interrupt.level_triggered {
                        InterruptTriggerMode::LevelTriggered
                    } else {
                        InterruptTriggerMode::EdgeTriggered
                    },
                },
            },
        );
    }

    fn route_asserted_lines(&mut self)
        ensures
            final(self).spec_pending() == with_all_routed(
                old(self).spec_pending(),
                old(self).spec_ioapic()@.due_interrupts(IOAPIC_GSI_COUNT as int),
            ),
            final(self).spec_ioapic()@ == old(self).spec_ioapic()@.after_routing(
                IOAPIC_GSI_COUNT as int,
            ),
            final(self).spec_ioapic().spec_base() == old(self).spec_ioapic().spec_base(),
            final(self).spec_ioapic().spec_size() == old(self).spec_ioapic().spec_size(),
            old(self).wf() ==> final(self).wf(),
    {
        let interrupts = self.ioapic.route_asserted_lines();
        let ghost ioapic = self.ioapic;
        let ghost before = self.spec_pending();
        let mut i: usize = 0;
        proof {
            assert(with_all_routed(before, interrupts@.take(0)) =~= before);
        }
        while i < interrupts.len()
            invariant
                i <= interrupts@.len(),
                self.ioapic == ioapic,
                self.spec_pending() == with_all_routed(before, interrupts@.take(i as int)),
            decreases interrupts@.len() - i,
        {
            self.queue_routed(BSP_VCPU_ID, Some(interrupts[i]));
            proof {
                assert(with_all_routed(before, interrupts@.take(i as int)).push(
                    entry_of(BSP_VCPU_ID, interrupts@[i as int]),
                ) =~= with_all_routed(before, interrupts@.take(i + 1)));
            }
            i = i + 1;
        }
        proof {
            assert(interrupts@.take(i as int) =~= interrupts@);
        }
    }

    /// Sets the asserted state of an input. What the IO APIC routes is queued
    /// for the bootstrap vCPU.
    pub fn set_level(&mut self, line: IrqLineId, asserted: bool) -> (r: AxResult<()>)
        ensures
            line.0 >= IOAPIC_GSI_COUNT ==> r == Err::<(), AxError>(AxError::InvalidInput)
                && *final(self) == *old(self),
            line.0 < IOAPIC_GSI_COUNT ==> {
                &&& r == Ok::<(), AxError>(())
                &&& final(self).spec_ioapic()@ == old(self).spec_ioapic()@.after_level(
                    line.0 as int,
                    asserted,
                )
                &&& final(self).spec_pending() == with_routed(
                    old(self).spec_pending(),
                    BSP_VCPU_ID,
                    old(self).spec_ioapic()@.level_interrupt(line.0 as int, asserted),
                )
            },
            final(self).spec_ioapic().spec_base() == old(self).spec_ioapic().spec_base(),
            final(self).spec_ioapic().spec_size() == old(self).spec_ioapic().spec_size(),
            old(self).wf() ==> final(self).wf(),
    {
        match Self::validate_gsi(line.0) {
            Ok(()) => {},
            Err(error) => {
                return Err(error);
            },
        }
        let interrupt = self.ioapic.set_gsi_level(line.0, asserted);
        self.queue_routed(BSP_VCPU_ID, interrupt);
        Ok(())
    }

    /// Delivers one pulse on an input. What the IO APIC routes is queued for
    /// the bootstrap vCPU.
    pub fn pulse(&mut self, line: IrqLineId) -> (r: AxResult<()>)
        ensures
            line.0 >= IOAPIC_GSI_COUNT ==> r == Err::<(), AxError>(AxError::InvalidInput)
                && *final(self) == *old(self),
            line.0 < IOAPIC_GSI_COUNT ==> {
                &&& r == Ok::<(), AxError>(())
                &&& final(self).spec_ioapic()@ == old(self).spec_ioapic()@.after_signal(
                    line.0 as int,
                    true,
                )
                &&& final(self).spec_pending() == with_routed(
                    old(self).spec_pending(),
                    BSP_VCPU_ID,
                    old(self).spec_ioapic()@.signal(line.0 as int),
                )
            },
            final(self).spec_ioapic().spec_base() == old(self).spec_ioapic().spec_base(),
            final(self).spec_ioapic().spec_size() == old(self).spec_ioapic().spec_size(),
            old(self).wf() ==> final(self).wf(),
    {
        match Self::validate_gsi(line.0) {
            Ok(()) => {},
            Err(error) => {
                return Err(error);
            },
        }
        let interrupt = self.ioapic.pulse_gsi(line.0);
        self.queue_routed(BSP_VCPU_ID, interrupt);
        Ok(())
    }

    /// Queues a routed message for its target vCPU.
    pub fn inject_msi(&mut self, route: MsiRoute) -> (r: AxResult<()>)
        ensures
            r == Ok::<(), AxError>(()),
            final(self).spec_pending() == old(self).spec_pending().push(
                QueuedInterrupt {
                    vcpu_id: route.target_vcpu,
                    interrupt: PendingInterrupt {
                        vector: route.vector as usize,
                        trigger: InterruptTriggerMode::EdgeTriggered,
                    },
                },
            ),
            final(self).spec_ioapic() == old(self).spec_ioapic(),
    {
        self.pending.push_back(
            QueuedInterrupt {
                vcpu_id: route.target_vcpu,
                interrupt: PendingInterrupt {
                    vector: route.vector as usize,
                    trigger: InterruptTriggerMode::EdgeTriggered,
                },
            },
        );
        Ok(())
    }

    /// Processes an EOI broadcast. What the IO APIC sends again is queued for
    /// the vCPU that ended the interrupt.
    pub fn eoi(&mut self, vcpu_id: VCpuId, vector: InterruptVector) -> (r: AxResult<()>)
        ensures
            r == Ok::<(), AxError>(()),
            final(self).spec_ioapic()@ == old(self).spec_ioapic()@.after_eoi(vector),
            final(self).spec_pending() == with_routed(
                old(self).spec_pending(),
                vcpu_id,
                old(self).spec_ioapic()@.eoi_interrupt(vector),
            ),
            final(self).spec_ioapic().spec_base() == old(self).spec_ioapic().spec_base(),
            final(self).spec_ioapic().spec_size() == old(self).spec_ioapic().spec_size(),
            old(self).wf() ==> final(self).wf(),
    {
        let interrupt = self.ioapic.end_of_interrupt(vector);
        self.queue_routed(vcpu_id, interrupt);
        Ok(())
    }

    /// Forwards a host interrupt as a pulse on the input of the same number.
    pub fn forward_host_irq(&mut self, host_irq: usize) -> (r: AxResult<()>)
        ensures
            host_irq >= IOAPIC_GSI_COUNT ==> r == Err::<(), AxError>(AxError::InvalidInput)
                && *final(self) == *old(self),
            host_irq < IOAPIC_GSI_COUNT ==> {
                &&& r == Ok::<(), AxError>(())
                &&& final(self).spec_ioapic()@ == old(self).spec_ioapic()@.after_signal(
                    host_irq as int,
                    true,
                )
                &&& final(self).spec_pending() == with_routed(
                    old(self).spec_pending(),
                    BSP_VCPU_ID,
                    old(self).spec_ioapic()@.signal(host_irq as int),
                )
            },
            final(self).spec_ioapic().spec_base() == old(self).spec_ioapic().spec_base(),
            final(self).spec_ioapic().spec_size() == old(self).spec_ioapic().spec_size(),
            old(self).wf() ==> final(self).wf(),
    {
        self.pulse(IrqLineId(host_irq))
    }

    /// Queues the asserted inputs that became deliverable, then delivers the
    /// interrupts of the vCPU in order, up to the first that fails.
    pub fn drain_pending<D: InterruptDelivery + ?Sized>(
        &mut self,
        vcpu_id: VCpuId,
        deliver: &mut D,
    ) -> (r: AxResult<()>)
        ensures
            final(self).spec_ioapic()@ == old(self).spec_ioapic()@.after_routing(
                IOAPIC_GSI_COUNT as int,
            ),
            queue::drained(
                with_all_routed(
                    old(self).spec_pending(),
                    old(self).spec_ioapic()@.due_interrupts(IOAPIC_GSI_COUNT as int),
                ),
                final(self).spec_pending(),
                vcpu_id,
                old(deliver).log(),
                final(deliver).log(),
                r,
            ),
            final(self).spec_ioapic().spec_base() == old(self).spec_ioapic().spec_base(),
            final(self).spec_ioapic().spec_size() == old(self).spec_ioapic().spec_size(),
            old(self).wf() ==> final(self).wf(),
    {
        self.route_asserted_lines();
        self.pending.drain(vcpu_id, deliver)
    }
}

/// A pulse that the guest routes is delivered once: the next drain of the
/// bootstrap vCPU that succeeds hands over what waited before the pulse, then
/// the pulse's interrupt, then the asserted inputs that became deliverable, each
/// once.
pub proof fn law_routed_pulse_is_delivered_once(
    model: IoApicModel,
    queue: Seq<QueuedInterrupt>,
    gsi: int,
    queue_after: Seq<QueuedInterrupt>,
    log: Seq<Delivery>,
    log_after: Seq<Delivery>,
)
    requires
        model.signal(gsi) is Some,
        queue::drained(
            with_all_routed(
                with_routed(queue, BSP_VCPU_ID, model.signal(gsi)),
                model.after_signal(gsi, true).due_interrupts(IOAPIC_GSI_COUNT as int),
            ),
            queue_after,
            BSP_VCPU_ID,
            log,
            log_after,
            Ok(()),
        ),
    ensures
        queue::successes(log_after) == (queue::successes(log) + queue::interrupts(
            queue::of_vcpu(queue, BSP_VCPU_ID),
        )).push(entry_of(BSP_VCPU_ID, model.signal(gsi)->0).interrupt) + queue::interrupts(
            with_all_routed(
                Seq::empty(),
                model.after_signal(gsi, true).due_interrupts(IOAPIC_GSI_COUNT as int),
            ),
        ),
        queue::of_vcpu(queue_after, BSP_VCPU_ID).len() == 0,
{
    let entry = entry_of(BSP_VCPU_ID, model.signal(gsi)->0);
    let due = with_all_routed(
        Seq::empty(),
        model.after_signal(gsi, true).due_interrupts(IOAPIC_GSI_COUNT as int),
    );
    let pulsed = queue.push(entry);
    let all = with_all_routed(
        pulsed,
        model.after_signal(gsi, true).due_interrupts(IOAPIC_GSI_COUNT as int),
    );
    assert(all =~= pulsed + due);
    queue::law_queued_interrupts_are_delivered_once(
        all,
        queue_after,
        BSP_VCPU_ID,
        log,
        log_after,
    );
    queue::lemma_joined_parts(pulsed, due, BSP_VCPU_ID);
    queue::law_queued_interrupt_reaches_its_vcpu(queue, entry, BSP_VCPU_ID);
    queue::lemma_all_for(due, BSP_VCPU_ID);
    assert(queue::interrupts(queue::of_vcpu(all, BSP_VCPU_ID)) =~= queue::interrupts(
        queue::of_vcpu(queue, BSP_VCPU_ID),
    ).push(entry.interrupt) + queue::interrupts(due));
}

/// Builds the MMIO device of a VM's virtual IO APIC.
pub struct X86IoApicFactory {
    base_gpa: usize,
    length: usize,
    device: MmioDevice,
}

impl X86IoApicFactory {
    /// The first address that the IO APIC was set up with.
    pub closed spec fn spec_base_gpa(&self) -> usize {
        self.base_gpa
    }

    /// The size that the IO APIC was set up with.
    pub closed spec fn spec_length(&self) -> usize {
        self.length
    }

    /// The device.
    pub closed spec fn spec_device(&self) -> MmioDevice {
        self.device
    }

    /// Whether the configuration is still the one of the IO APIC.
    pub open spec fn recognizes(&self, config: EmulatedDeviceConfig) -> bool {
        &&& config.base_gpa == self.spec_base_gpa()
        &&& config.length == self.spec_length()
        &&& config.cfg_list@.len() == 0
        &&& config.irqs@.len() == 0
    }

    /// Creates the factory of an IO APIC.
    pub fn new(base_gpa: usize, length: usize, device: MmioDevice) -> (r: Self)
        ensures
            r.spec_base_gpa() == base_gpa,
            r.spec_length() == length,
            r.spec_device() == device,
    {
        X86IoApicFactory { base_gpa, length, device }
    }
}

impl DeviceFactory for X86IoApicFactory {
    open spec fn spec_device_type(&self) -> EmulatedDeviceType {
        EmulatedDeviceType::X86IoApic
    }

    /// A configuration that changed is refused. Otherwise the bundle holds the
    /// device alone.
    open spec fn build_outcome(
        &self,
        config: EmulatedDeviceConfig,
        resolver: Borrowed<'_, dyn IrqResolver>,
        r: AxResult<DeviceBundle>,
    ) -> bool {
        if self.recognizes(config) {
            &&& r is Ok
            &&& exists|bare: DeviceBundle|
                #[trigger] bare.is_bare() && r->Ok_0.extends(
                    bare,
                    DeviceRegistration::Mmio(self.spec_device()),
                )
        } else {
            r == Err::<DeviceBundle, AxError>(AxError::InvalidInput)
        }
    }

    fn device_type(&self) -> (r: EmulatedDeviceType) {
        EmulatedDeviceType::X86IoApic
    }

    fn build(&self, config: &EmulatedDeviceConfig, context: &DeviceBuildContext<'_>) -> (r: AxResult<
        DeviceBundle,
    >) {
        if config.base_gpa != self.base_gpa || config.length != self.length
            || config.cfg_list.len() != 0 || config.irqs.len() != 0 {
            return Err(AxError::InvalidInput);
        }
        Ok(DeviceBundle::from_registration(DeviceRegistration::Mmio(self.device.clone())))
    }
}

/// Whether the configuration asks for exactly those ports and has no arguments.
pub open spec fn port_config_accepted(
    config: EmulatedDeviceConfig,
    expected_base: usize,
    expected_length: usize,
) -> bool {
    &&& config.base_gpa == expected_base
    &&& config.length == expected_length
    &&& config.cfg_list@.len() == 0
}

/// Checks that a port device is configured at its fixed ports.
pub fn validate_port_config(
    config: &EmulatedDeviceConfig,
    expected_base: usize,
    expected_length: usize,
) -> (r: AxResult<()>)
    ensures
        r == (if port_config_accepted(*config, expected_base, expected_length) {
            Ok::<(), AxError>(())
        } else {
            Err(AxError::InvalidInput)
        }),
{
    if config.base_gpa != expected_base || config.length != expected_length
        || config.cfg_list.len() != 0 {
        return Err(AxError::InvalidInput);
    }
    Ok(())
}

/// Checks the configuration of the PIT timer and resolves its interrupt line.
pub fn resolve_pit_irq(config: &EmulatedDeviceConfig, context: &DeviceBuildContext<'_>) -> (r:
    AxResult<IrqLine>)
    ensures
        if port_config_accepted(*config, PIT_PORT_BASE, PIT_PORT_LENGTH) {
            context.spec_resolver().obj().resolve_outcome(
                factory::configured_line(config.irqs@, "irq"@, PIT_TIMER_GSI),
                InterruptTriggerMode::EdgeTriggered,
                r,
            )
        } else {
            r == Err::<IrqLine, AxError>(AxError::InvalidInput)
        },
{
    match validate_port_config(config, PIT_PORT_BASE, PIT_PORT_LENGTH) {
        Ok(()) => {},
        Err(error) => {
            return Err(error);
        },
    }
    let name: String = "irq".to_string();
    context.resolve_config_irq(config, &name, PIT_TIMER_GSI, InterruptTriggerMode::EdgeTriggered)
}

/// Checks the configuration of the first serial port and resolves its interrupt
/// line.
pub fn resolve_serial_irq(config: &EmulatedDeviceConfig, context: &DeviceBuildContext<'_>) -> (r:
    AxResult<IrqLine>)
    ensures
        if port_config_accepted(*config, COM1_PORT_BASE, COM1_PORT_LENGTH) {
            context.spec_resolver().obj().resolve_outcome(
                factory::configured_line(config.irqs@, "irq"@, COM1_GSI),
                InterruptTriggerMode::LevelTriggered,
                r,
            )
        } else {
            r == Err::<IrqLine, AxError>(AxError::InvalidInput)
        },
{
    match validate_port_config(config, COM1_PORT_BASE, COM1_PORT_LENGTH) {
        Ok(()) => {},
        Err(error) => {
            return Err(error);
        },
    }
    let name: String = "irq".to_string();
    context.resolve_config_irq(config, &name, COM1_GSI, InterruptTriggerMode::LevelTriggered)
}

/// Where a VM's IO APIC stands.
#[derive(Clone, Copy, Debug, PartialEq, Eq, Structural)]
pub struct IoApicPlacement {
    /// First address of the MMIO window.
    pub base_gpa: usize,
    /// Size of the MMIO window.
    pub length: usize,
}

/// Index of the first IO APIC configuration from `from` on, or the number of
/// configurations.
pub open spec fn next_ioapic(configs: Seq<EmulatedDeviceConfig>, from: int) -> int
    decreases configs.len() - from,
{
    if from >= configs.len() {
        configs.len() as int
    } else if configs[from].emu_type == EmulatedDeviceType::X86IoApic {
        from
    } else {
        next_ioapic(configs, from + 1)
    }
}

/// The IO APIC that the configurations ask for: one at most, in a range that
/// exists, without arguments and interrupt outputs.
pub open spec fn chosen_ioapic(configs: Seq<EmulatedDeviceConfig>) -> AxResult<
    Option<IoApicPlacement>,
> {
    let first = next_ioapic(configs, 0);
    if first >= configs.len() {
        Ok(None)
    } else if next_ioapic(configs, first + 1) < configs.len() {
        Err(AxError::AlreadyExists)
    } else {
        let config = configs[first];
        if config.length == 0 || config.base_gpa + config.length > usize::MAX
            || config.cfg_list@.len() != 0 || config.irqs@.len() != 0 {
            Err(AxError::InvalidInput)
        } else {
            Ok(Some(IoApicPlacement { base_gpa: config.base_gpa, length: config.length }))
        }
    }
}

fn find_ioapic(configs: &[EmulatedDeviceConfig], from: usize) -> (r: usize)
    requires
        from <= configs@.len(),
    ensures
        r == next_ioapic(configs@, from as int),
        from <= r <= configs@.len(),
{
    let mut i: usize = from;
    while i < configs.len()
        invariant
            from <= i <= configs@.len(),
            next_ioapic(configs@, from as int) == next_ioapic(configs@, i as int),
        decreases configs@.len() - i,
    {
        if configs[i].emu_type == EmulatedDeviceType::X86IoApic {
            return i;
        }
        i = i + 1;
    }
    i
}

/// Finds the IO APIC that the configurations ask for.
pub fn choose_ioapic(configs: &[EmulatedDeviceConfig]) -> (r: AxResult<Option<IoApicPlacement>>)
    ensures
        r == chosen_ioapic(configs@),
{
    let first: usize = find_ioapic(configs, 0);
    if first >= configs.len() {
        return Ok(None);
    }
    if find_ioapic(configs, first + 1) < configs.len() {
        return Err(AxError::AlreadyExists);
    }
    let config = &configs[first];
    if config.length == 0 || config.base_gpa.checked_add(config.length).is_none() {
        return Err(AxError::InvalidInput);
    }
    if config.cfg_list.len() != 0 {
        return Err(AxError::InvalidInput);
    }
    if config.irqs.len() != 0 {
        return Err(AxError::InvalidInput);
    }
    Ok(Some(IoApicPlacement { base_gpa: config.base_gpa, length: config.length }))
}

/// The handles through which a VM shares its backend.
pub struct X86BackendHandles {
    /// The factory of the IO APIC's MMIO device.
    pub factory: Shared<dyn DeviceFactory>,
    /// The line sink.
    pub sink: Shared<dyn IrqSink>,
    /// The controller.
    pub controller: Shared<dyn InterruptControllerOps>,
}

/// Whether the backend was just created for that placement.
pub open spec fn is_fresh(backend: X86InterruptBackend, placement: IoApicPlacement) -> bool {
    &&& backend.wf()
    &&& backend.spec_ioapic()@ == IoApicModel::initial()
    &&& backend.spec_ioapic().spec_base() == GuestPhysAddr(placement.base_gpa)
    &&& backend.spec_ioapic().spec_size() == placement.length
    &&& backend.spec_pending() == Seq::<QueuedInterrupt>::empty()
}

/// Whether setting up the chosen IO APIC may end with `r`: its factory joins
/// the others, and a VM without interrupts cannot have it.
pub open spec fn ioapic_installed<F: FnOnce(X86InterruptBackend) -> X86BackendHandles>(
    before: Seq<Shared<dyn DeviceFactory>>,
    after: Seq<Shared<dyn DeviceFactory>>,
    mode: VMInterruptMode,
    placement: IoApicPlacement,
    share: F,
    r: AxResult<InterruptFabric>,
) -> bool {
    exists|backend: X86InterruptBackend, handles: X86BackendHandles|
        {
            &&& #[trigger] call_ensures(share, (backend,), handles)
            &&& is_fresh(backend, placement)
            &&& if !factory::no_factory(before, handles.factory.obj().spec_device_type()) {
                &&& r == Err::<InterruptFabric, AxError>(AxError::AlreadyExists)
                &&& after == before
            } else if mode == VMInterruptMode::NoIrq {
                &&& r == Err::<InterruptFabric, AxError>(AxError::InvalidInput)
                &&& after == before.push(handles.factory)
            } else {
                &&& r is Ok
                &&& r->Ok_0.wf()
                &&& r->Ok_0.spec_mode() == mode
                &&& r->Ok_0.spec_sink() == Some(handles.sink)
                &&& r->Ok_0.spec_controller() == Some(handles.controller)
                &&& r->Ok_0.spec_msi_routes().len() == 0
                &&& after == before.push(handles.factory)
            }
        }
}

/// Registers the x86 device factories and sets up the interrupt fabric of a VM.
/// `share` turns the backend of the IO APIC into handles to it.
pub fn configure<F: FnOnce(X86InterruptBackend) -> X86BackendHandles>(
    factories: &mut DeviceFactoryRegistry,
    pit: Shared<dyn DeviceFactory>,
    serial: Shared<dyn DeviceFactory>,
    mode: VMInterruptMode,
    configs: &[EmulatedDeviceConfig],
    share: F,
) -> (r: AxResult<InterruptFabric>)
    requires
        forall|backend: X86InterruptBackend| #[trigger] call_requires(share, (backend,)),
    ensures
        ({
            let before = old(factories).spec_factories();
            let after = final(factories).spec_factories();
            let with_pit = before.push(pit);
            let with_both = with_pit.push(serial);
            if !factory::no_factory(before, pit.obj().spec_device_type()) {
                &&& r == Err::<InterruptFabric, AxError>(AxError::AlreadyExists)
                &&& after == before
            } else if !factory::no_factory(with_pit, serial.obj().spec_device_type()) {
                &&& r == Err::<InterruptFabric, AxError>(AxError::AlreadyExists)
                &&& after == with_pit
            } else {
                match chosen_ioapic(configs@) {
                    Ok(Some(placement)) => ioapic_installed(
                        with_both,
                        after,
                        mode,
                        placement,
                        share,
                        r,
                    ),
                    Ok(None) => {
                        &&& r is Ok
                        &&& r->Ok_0.wf()
                        &&& r->Ok_0.spec_mode() == mode
                        &&& r->Ok_0.spec_sink() is None
                        &&& r->Ok_0.spec_controller() is None
                        &&& r->Ok_0.spec_msi_routes().len() == 0
                        &&& after == with_both
                    },
                    Err(error) => {
                        &&& r == Err::<InterruptFabric, AxError>(error)
                        &&& after == with_both
                    },
                }
            }
        }),
{
    match factories.register(pit) {
        Ok(()) => {},
        Err(error) => {
            return Err(error);
        },
    }
    match factories.register(serial) {
        Ok(()) => {},
        Err(error) => {
            return Err(error);
        },
    }
    let placement = match choose_ioapic(configs) {
        Ok(Some(placement)) => placement,
        Ok(None) => {
            return Ok(InterruptFabric::new(mode));
        },
        Err(error) => {
            return Err(error);
        },
    };
    let ioapic = EmulatedIoApic::new(
        GuestPhysAddr::from_usize(placement.base_gpa),
        Some(placement.length),
    );
    let backend = X86InterruptBackend::new(ioapic);
    let handles = share(backend);
    match factories.register(handles.factory.clone()) {
        Ok(()) => {},
        Err(error) => {
            return Err(error);
        },
    }
    InterruptFabric::with_controller(mode, handles.sink, handles.controller)
}

/// The host vectors from 0x20 to 0x37 are those of the IO APIC's inputs, in
/// order.
pub proof fn law_host_vector_numbers(vector: usize)
    ensures
        0x20 <= vector < 0x38 ==> gsi_of_host_vector(vector) == Some((vector - 0x20) as usize),
        !(0x20 <= vector < 0x38) ==> gsi_of_host_vector(vector) is None,
{
}

/// A routed interrupt joins the end of the queue for the vCPU that was named, with
/// its vector and its trigger mode. Where nothing was routed the queue stays.
pub proof fn law_routed_interrupt_is_queued_last(
    queue: Seq<QueuedInterrupt>,
    vcpu_id: VCpuId,
    interrupt: IoApicInterrupt,
)
    ensures
        with_routed(queue, vcpu_id, None) == queue,
        ({
            let after = with_routed(queue, vcpu_id, Some(interrupt));
            &&& after.len() == queue.len() + 1
            &&& after.drop_last() == queue
            &&& after.last().vcpu_id == vcpu_id
            &&& after.last().interrupt.vector == interrupt.vector
            &&& after.last().interrupt.trigger == InterruptTriggerMode::LevelTriggered
                <==> interrupt.level_triggered
        }),
{
    let after = with_routed(queue, vcpu_id, Some(interrupt));
    assert(after.drop_last() =~= queue);
}

/// Routed line interrupts join the end of the queue in order, one entry each, for
/// the first vCPU.
pub proof fn law_routed_lines_are_queued_in_order(
    queue: Seq<QueuedInterrupt>,
    interrupts: Seq<IoApicInterrupt>,
    i: int,
)
    requires
        0 <= i < interrupts.len(),
    ensures
        ({
            let after = with_all_routed(queue, interrupts);
            let entry = after[queue.len() + i];
            &&& after.len() == queue.len() + interrupts.len()
            &&& after.take(queue.len() as int) == queue
            &&& entry.vcpu_id == 0
            &&& entry.interrupt.vector == interrupts[i].vector
            &&& entry.interrupt.trigger == InterruptTriggerMode::LevelTriggered
                <==> interrupts[i].level_triggered
        }),
{
    assert(with_all_routed(queue, interrupts).take(queue.len() as int) =~= queue);
}

/// A VM gets an IO APIC exactly when its configurations name one, in a range that
/// is not empty and ends in the address space, without arguments and outputs.
/// Naming two is an error of its own.
pub proof fn law_one_ioapic_is_chosen(configs: Seq<EmulatedDeviceConfig>, i: int, j: int)
    requires
        0 <= i < configs.len(),
        0 <= j < configs.len(),
    ensures
        (forall|k: int|
            0 <= k < configs.len() ==> (#[trigger] configs[k]).emu_type
                != EmulatedDeviceType::X86IoApic) ==> chosen_ioapic(configs) == Ok::<
            Option<IoApicPlacement>,
            AxError,
        >(None),
        i != j && configs[i].emu_type == EmulatedDeviceType::X86IoApic && configs[j].emu_type
            == EmulatedDeviceType::X86IoApic ==> chosen_ioapic(configs) == Err::<
            Option<IoApicPlacement>,
            AxError,
        >(AxError::AlreadyExists),
        configs[i].emu_type == EmulatedDeviceType::X86IoApic && (forall|k: int|
            0 <= k < configs.len() && k != i ==> (#[trigger] configs[k]).emu_type
                != EmulatedDeviceType::X86IoApic) ==> {
            let config = configs[i];
            let valid = config.length > 0 && config.base_gpa + config.length <= usize::MAX
                && config.cfg_list@.len() == 0 && config.irqs@.len() == 0;
            chosen_ioapic(configs) == (if valid {
                Ok(Some(IoApicPlacement { base_gpa: config.base_gpa, length: config.length }))
            } else {
                Err(AxError::InvalidInput)
            })
        },
{
    let first = next_ioapic(configs, 0);
    lemma_next_ioapic(configs, 0);
    if first < configs.len() {
        lemma_next_ioapic(configs, first + 1);
        assert(configs[first].emu_type == EmulatedDeviceType::X86IoApic);
        let second = next_ioapic(configs, first + 1);
        if second < configs.len() {
            assert(configs[second].emu_type == EmulatedDeviceType::X86IoApic);
        }
    }
}

proof fn lemma_next_ioapic(configs: Seq<EmulatedDeviceConfig>, from: int)
    requires
        0 <= from <= configs.len(),
    ensures
        from <= next_ioapic(configs, from) <= configs.len(),
        next_ioapic(configs, from) < configs.len() ==> configs[next_ioapic(configs, from)].emu_type
            == EmulatedDeviceType::X86IoApic,
        forall|k: int|
            from <= k < next_ioapic(configs, from) ==> (#[trigger] configs[k]).emu_type
                != EmulatedDeviceType::X86IoApic,
    decreases configs.len() - from,
{
    if from < configs.len() && configs[from].emu_type != EmulatedDeviceType::X86IoApic {
        lemma_next_ioapic(configs, from + 1);
    }
}

/// The backend of the chosen IO APIC starts at the chosen place with every line
/// masked and nothing queued. Its factory joins the others unless there is one for
/// its type already, and a VM without interrupts cannot have it.
pub proof fn law_chosen_ioapic_is_set_up<F: FnOnce(X86InterruptBackend) -> X86BackendHandles>(
    before: Seq<Shared<dyn DeviceFactory>>,
    after: Seq<Shared<dyn DeviceFactory>>,
    mode: VMInterruptMode,
    placement: IoApicPlacement,
    share: F,
    r: AxResult<InterruptFabric>,
)
    requires
        ioapic_installed(before, after, mode, placement, share, r),
    ensures
        exists|backend: X86InterruptBackend, handles: X86BackendHandles|
            {
                &&& #[trigger] call_ensures(share, (backend,), handles)
                &&& backend.spec_pending().len() == 0
                &&& backend.spec_ioapic().spec_base().0 == placement.base_gpa
                &&& backend.spec_ioapic().spec_size() == placement.length
                &&& forall|g: int|
                    0 <= g < 24 ==> #[trigger] backend.spec_ioapic()@.table[g] == 0x1_0000
                &&& {
                    let taken = exists|i: int|
                        0 <= i < before.len() && (#[trigger] before[i]).obj().spec_device_type()
                            == handles.factory.obj().spec_device_type();
                    &&& taken ==> r == Err::<InterruptFabric, AxError>(AxError::AlreadyExists)
                        && after == before
                    &&& !taken ==> after.len() == before.len() + 1 && after.drop_last() == before
                        && after.last() == handles.factory
                    &&& !taken && mode == VMInterruptMode::NoIrq ==> r == Err::<
                        InterruptFabric,
                        AxError,
                    >(AxError::InvalidInput)
                    &&& !taken && mode != VMInterruptMode::NoIrq ==> {
                        &&& r is Ok
                        &&& r->Ok_0.spec_mode() == mode
                        &&& r->Ok_0.spec_sink() == Some(handles.sink)
                        &&& r->Ok_0.spec_controller() == Some(handles.controller)
                        &&& r->Ok_0.spec_msi_routes().len() == 0
                    }
                }
            },
{
    assert forall|added: Shared<dyn DeviceFactory>| (#[trigger] before.push(added)).drop_last()
        == before by {
        assert(before.push(added).drop_last() =~= before);
    }
}

/// The factory of the IO APIC hands out its device, alone, for the place that was
/// chosen and without arguments or interrupts; any other configuration is invalid.
pub proof fn law_ioapic_is_built_where_it_was_chosen(
    factory: X86IoApicFactory,
    config: EmulatedDeviceConfig,
    resolver: Borrowed<'_, dyn IrqResolver>,
    r: AxResult<DeviceBundle>,
)
    requires
        factory.build_outcome(config, resolver, r),
    ensures
        r is Ok <==> config.base_gpa == factory.spec_base_gpa() && config.length
            == factory.spec_length() && config.cfg_list@.len() == 0 && config.irqs@.len() == 0,
        r is Err ==> r == Err::<DeviceBundle, AxError>(AxError::InvalidInput),
        r is Ok ==> {
            &&& r->Ok_0.mmio@.len() == 1
            &&& r->Ok_0.mmio@[0] == factory.spec_device()
            &&& r->Ok_0.port@.len() == 0
            &&& r->Ok_0.sysreg@.len() == 0
            &&& r->Ok_0.pollable@.len() == 0
            &&& r->Ok_0.lifecycle@.len() == 0
            &&& r->Ok_0.ivc_channels@.len() == 0
        },
{
}

} // verus!
