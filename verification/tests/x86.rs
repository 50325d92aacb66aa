use axvirt::device_ops::{BaseDeviceOps, MmioDevice};
use axvirt::error::{AxError, AxResult};
use axvirt::factory::{
    DeviceBuildContext, DeviceBundle, DeviceFactory, DeviceFactoryRegistry,
};
use axvirt::ioapic::EmulatedIoApic;
use axvirt::irq::line::{IrqResolver, IrqSink};
use axvirt::irq::router::MsiRoute;
use axvirt::irq::x86::{
    choose_ioapic, configure, host_vector_to_gsi, resolve_pit_irq, resolve_serial_irq,
    IoApicPlacement, X86BackendHandles, X86InterruptBackend, X86IoApicFactory,
    HOST_IOAPIC_GSI_COUNT, HOST_IOAPIC_VECTOR_BASE,
};
use axvirt::irq::{InterruptControllerOps, InterruptDelivery, InterruptFabric, PendingInterrupt};
use axvirt::range::GuestPhysAddrRange;
use axvirt::resource::MsiMessage;
use axvirt::shared::{Borrowed, Lent, Shared};
use axvirt::types::{
    AccessWidth, DeviceIrqConfig, EmulatedDeviceConfig, EmulatedDeviceType, GuestPhysAddr,
    InterruptTriggerMode, InterruptVector, IrqLineId, VCpuId, VMInterruptMode, BSP_VCPU_ID,
};
use std::sync::{Arc, Mutex};

struct Deliver<F>(F);

impl<F: FnMut(PendingInterrupt) -> AxResult<()>> InterruptDelivery for Deliver<F> {
    fn deliver(&mut self, interrupt: PendingInterrupt) -> AxResult<()> {
        (self.0)(interrupt)
    }
}

fn deliver_with<F: FnMut(PendingInterrupt) -> AxResult<()>>(f: F) -> Deliver<F> {
    Deliver(f)
}

const IOAPIC_BASE: usize = 0xfec0_0000;

fn backend_with_route(gsi: usize, vector: u8) -> X86InterruptBackend {
    let mut ioapic = EmulatedIoApic::new_default();
    ioapic
        .handle_write(
            GuestPhysAddr::from_usize(IOAPIC_BASE),
            AccessWidth::Dword,
            0x10 + 2 * gsi,
        )
        .unwrap();
    ioapic
        .handle_write(
            GuestPhysAddr::from_usize(IOAPIC_BASE + 0x10),
            AccessWidth::Dword,
            vector as usize,
        )
        .unwrap();
    X86InterruptBackend::new(ioapic)
}

#[test]
fn pending_irqs_are_isolated_between_backends() {
    let mut backend_a = backend_with_route(9, 0x39);
    let mut backend_b = backend_with_route(9, 0x39);
    backend_a.pulse(IrqLineId(9)).unwrap();

    let mut delivered_a = Vec::new();
    backend_a
        .drain_pending(BSP_VCPU_ID, &mut deliver_with(|interrupt| {
            delivered_a.push(interrupt);
            Ok(())
        }))
        .unwrap();
    let mut delivered_b = Vec::new();
    backend_b
        .drain_pending(BSP_VCPU_ID, &mut deliver_with(|interrupt| {
            delivered_b.push(interrupt);
            Ok(())
        }))
        .unwrap();

    assert_eq!(
        delivered_a,
        vec![PendingInterrupt {
            vector: 0x39,
            trigger: InterruptTriggerMode::EdgeTriggered,
        }]
    );
    assert!(delivered_b.is_empty());
}

#[test]
fn x86_failed_delivery_keeps_interrupt_pending() {
    let mut backend = backend_with_route(10, 0x3a);
    backend.pulse(IrqLineId(10)).unwrap();

    assert_eq!(
        backend.drain_pending(BSP_VCPU_ID, &mut deliver_with(|_| Err(AxError::BadState))),
        Err(AxError::BadState)
    );

    let mut delivered = Vec::new();
    backend
        .drain_pending(BSP_VCPU_ID, &mut deliver_with(|interrupt: PendingInterrupt| {
            delivered.push(interrupt);
            Ok(())
        }))
        .unwrap();
    assert_eq!(delivered.len(), 1);
    assert_eq!(delivered[0].vector, 0x3a);
}

#[test]
fn each_queued_interrupt_is_delivered_once_in_order() {
    let mut backend = backend_with_route(10, 0x3a);
    for line in [10, 10, 10] {
        backend.pulse(IrqLineId(line)).unwrap();
    }
    backend
        .inject_msi(MsiRoute {
            message: MsiMessage {
                address: 0xfee0_0000,
                data: 0x45,
            },
            target_vcpu: BSP_VCPU_ID,
            vector: 0x45,
        })
        .unwrap();
    let mut attempts = Vec::new();
    assert_eq!(
        backend.drain_pending(BSP_VCPU_ID, &mut deliver_with(|interrupt| {
            attempts.push(interrupt.vector);
            if attempts.len() == 2 {
                Err(AxError::WouldBlock)
            } else {
                Ok(())
            }
        })),
        Err(AxError::WouldBlock)
    );
    assert_eq!(attempts, vec![0x3a, 0x3a]);
    for expected in [vec![0x3a, 0x3a, 0x45], vec![]] {
        let mut delivered: Vec<usize> = Vec::new();
        backend
            .drain_pending(BSP_VCPU_ID, &mut deliver_with(|interrupt| {
                delivered.push(interrupt.vector);
                Ok(())
            }))
            .unwrap();
        assert_eq!(delivered, expected);
    }
}

#[test]
fn msi_route_queues_target_vector() {
    let mut backend = X86InterruptBackend::new(EmulatedIoApic::new_default());
    backend
        .inject_msi(MsiRoute {
            message: MsiMessage {
                address: 0xfee0_0000,
                data: 0x45,
            },
            target_vcpu: 1,
            vector: 0x45,
        })
        .unwrap();

    let mut delivered_bsp = Vec::new();
    backend
        .drain_pending(BSP_VCPU_ID, &mut deliver_with(|interrupt| {
            delivered_bsp.push(interrupt);
            Ok(())
        }))
        .unwrap();
    assert!(delivered_bsp.is_empty());

    let mut delivered_target = Vec::new();
    backend
        .drain_pending(1, &mut deliver_with(|interrupt| {
            delivered_target.push(interrupt);
            Ok(())
        }))
        .unwrap();
    assert_eq!(
        delivered_target,
        vec![PendingInterrupt {
            vector: 0x45,
            trigger: InterruptTriggerMode::EdgeTriggered,
        }]
    );
}

#[test]
fn host_vector_mapping_is_bounded() {
    assert_eq!(host_vector_to_gsi(HOST_IOAPIC_VECTOR_BASE), Some(0));
    assert_eq!(
        host_vector_to_gsi(HOST_IOAPIC_VECTOR_BASE + HOST_IOAPIC_GSI_COUNT - 1),
        Some(HOST_IOAPIC_GSI_COUNT - 1)
    );
    assert_eq!(host_vector_to_gsi(HOST_IOAPIC_VECTOR_BASE - 1), None);
    assert_eq!(
        host_vector_to_gsi(HOST_IOAPIC_VECTOR_BASE + HOST_IOAPIC_GSI_COUNT),
        None
    );
}

#[test]
fn lines_beyond_the_ioapic_are_refused() {
    let mut backend = backend_with_route(9, 0x39);
    assert_eq!(backend.pulse(IrqLineId(24)), Err(AxError::InvalidInput));
    assert_eq!(
        backend.set_level(IrqLineId(24), true),
        Err(AxError::InvalidInput)
    );
    assert_eq!(backend.forward_host_irq(24), Err(AxError::InvalidInput));
    assert_eq!(backend.forward_host_irq(9), Ok(()));
    assert_eq!(X86InterruptBackend::validate_gsi(23), Ok(()));
}

#[test]
fn asserted_line_is_routed_once_the_guest_unmasks_it() {
    let mut backend = X86InterruptBackend::new(EmulatedIoApic::new_default());
    backend.set_level(IrqLineId(6), true).unwrap();
    let mut early = Vec::new();
    backend
        .drain_pending(BSP_VCPU_ID, &mut deliver_with(|interrupt| {
            early.push(interrupt);
            Ok(())
        }))
        .unwrap();
    assert!(early.is_empty());

    let base = IOAPIC_BASE;
    let ioapic = backend.ioapic_mut();
    ioapic
        .handle_write(GuestPhysAddr(base), AccessWidth::Dword, 0x10 + 2 * 6)
        .unwrap();
    ioapic
        .handle_write(
            GuestPhysAddr(base + 0x10),
            AccessWidth::Dword,
            0x32 | (1 << 15),
        )
        .unwrap();
    let mut late = Vec::new();
    backend
        .drain_pending(BSP_VCPU_ID, &mut deliver_with(|interrupt| {
            late.push(interrupt);
            Ok(())
        }))
        .unwrap();
    assert_eq!(
        late,
        vec![PendingInterrupt {
            vector: 0x32,
            trigger: InterruptTriggerMode::LevelTriggered,
        }]
    );
    backend.eoi(2, 0x32).unwrap();
    let mut again = Vec::new();
    backend
        .drain_pending(2, &mut deliver_with(|interrupt| {
            again.push(interrupt);
            Ok(())
        }))
        .unwrap();
    assert_eq!(again, late);
    assert_eq!(backend.ioapic().vector_for_gsi(6), Some(0x32));
}

struct Locked(Mutex<X86InterruptBackend>);

impl IrqSink for Locked {
    fn validate_line(&self, _line: IrqLineId, _trigger: InterruptTriggerMode) -> AxResult<()> {
        Ok(())
    }

    fn set_level(&self, line: IrqLineId, asserted: bool) -> AxResult<()> {
        self.0.lock().unwrap().set_level(line, asserted)
    }

    fn pulse(&self, line: IrqLineId) -> AxResult<()> {
        self.0.lock().unwrap().pulse(line)
    }
}

impl InterruptControllerOps for Locked {
    fn inject_msi(&self, route: MsiRoute) -> AxResult<()> {
        self.0.lock().unwrap().inject_msi(route)
    }

    fn eoi(&self, vcpu_id: VCpuId, vector: InterruptVector) -> AxResult<()> {
        self.0.lock().unwrap().eoi(vcpu_id, vector)
    }

    fn forward_host_irq(&self, host_irq: usize) -> AxResult<()> {
        self.0.lock().unwrap().forward_host_irq(host_irq)
    }

    fn drain_pending(
        &self,
        vcpu_id: VCpuId,
        deliver: &mut Lent<'_, dyn InterruptDelivery>,
    ) -> AxResult<()> {
        self.0.lock().unwrap().drain_pending(vcpu_id, deliver.get())
    }
}

impl BaseDeviceOps<GuestPhysAddrRange> for Locked {
    fn address_range(&self) -> GuestPhysAddrRange {
        self.0.lock().unwrap().ioapic().address_range()
    }

    fn emu_type(&self) -> EmulatedDeviceType {
        self.0.lock().unwrap().ioapic().emu_type()
    }

    fn handle_read(&self, addr: GuestPhysAddr, width: AccessWidth) -> AxResult<usize> {
        self.0.lock().unwrap().ioapic().handle_read(addr, width)
    }

    fn handle_write(&self, addr: GuestPhysAddr, width: AccessWidth, val: usize) -> AxResult<()> {
        self.0
            .lock()
            .unwrap()
            .ioapic_mut()
            .handle_write(addr, width, val)
    }
}

struct EmptyFactory(EmulatedDeviceType);

impl DeviceFactory for EmptyFactory {
    fn device_type(&self) -> EmulatedDeviceType {
        self.0
    }

    fn build(
        &self,
        _config: &EmulatedDeviceConfig,
        _context: &DeviceBuildContext<'_>,
    ) -> AxResult<DeviceBundle> {
        Ok(DeviceBundle::new())
    }
}

fn empty_factory(device_type: EmulatedDeviceType) -> Shared<dyn DeviceFactory> {
    Shared::new(Arc::new(EmptyFactory(device_type)))
}

fn share(backend: X86InterruptBackend) -> X86BackendHandles {
    let range = backend.ioapic().address_range();
    let backend = Arc::new(Locked(Mutex::new(backend)));
    let device: Arc<dyn BaseDeviceOps<GuestPhysAddrRange>> = backend.clone();
    let device: MmioDevice = Shared::new(device);
    let factory: Arc<dyn DeviceFactory> = Arc::new(X86IoApicFactory::new(
        range.start.as_usize(),
        range.end.as_usize() - range.start.as_usize(),
        device,
    ));
    let sink: Arc<dyn IrqSink> = backend.clone();
    let controller: Arc<dyn InterruptControllerOps> = backend;
    X86BackendHandles {
        factory: Shared::new(factory),
        sink: Shared::new(sink),
        controller: Shared::new(controller),
    }
}

fn device(emu_type: EmulatedDeviceType, base_gpa: usize, length: usize) -> EmulatedDeviceConfig {
    EmulatedDeviceConfig {
        name: String::from("device"),
        base_gpa,
        length,
        irq_id: 0,
        irqs: vec![],
        emu_type,
        cfg_list: vec![],
    }
}

fn ioapic_config() -> EmulatedDeviceConfig {
    device(EmulatedDeviceType::X86IoApic, IOAPIC_BASE, 0x1000)
}

#[test]
fn one_valid_ioapic_is_chosen() {
    assert_eq!(choose_ioapic(&[]), Ok(None));
    let pit = || device(EmulatedDeviceType::X86Pit, 0x40, 0x22);
    assert_eq!(choose_ioapic(&[pit()]), Ok(None));
    assert_eq!(
        choose_ioapic(&[pit(), ioapic_config()]),
        Ok(Some(IoApicPlacement {
            base_gpa: IOAPIC_BASE,
            length: 0x1000,
        }))
    );
    assert_eq!(
        choose_ioapic(&[ioapic_config(), pit(), ioapic_config()]),
        Err(AxError::AlreadyExists)
    );
    assert_eq!(
        choose_ioapic(&[device(EmulatedDeviceType::X86IoApic, IOAPIC_BASE, 0)]),
        Err(AxError::InvalidInput)
    );
    assert_eq!(
        choose_ioapic(&[device(EmulatedDeviceType::X86IoApic, usize::MAX, 1)]),
        Err(AxError::InvalidInput)
    );
    let mut with_args = ioapic_config();
    with_args.cfg_list.push(1);
    assert_eq!(choose_ioapic(&[with_args]), Err(AxError::InvalidInput));
    let mut with_output = ioapic_config();
    with_output.irqs.push(DeviceIrqConfig {
        name: String::from("irq"),
        line: 1,
    });
    assert_eq!(choose_ioapic(&[with_output]), Err(AxError::InvalidInput));
}

#[test]
fn x86_fabric_setup() {
    let pit = || empty_factory(EmulatedDeviceType::X86Pit);
    let serial = || empty_factory(EmulatedDeviceType::Console);
    let configs = [ioapic_config()];

    let mut factories = DeviceFactoryRegistry::new();
    let fabric = configure(
        &mut factories,
        pit(),
        serial(),
        VMInterruptMode::Emulated,
        &configs,
        share,
    )
    .unwrap();
    assert!(fabric.has_controller());
    let context = DeviceBuildContext::new(Borrowed::new(&fabric as &dyn IrqResolver));
    assert_eq!(
        factories
            .build(&configs[0], &context)
            .map(|bundle| bundle.mmio.len()),
        Ok(1)
    );
    let moved = device(EmulatedDeviceType::X86IoApic, IOAPIC_BASE + 1, 0x1000);
    assert_eq!(
        factories.build(&moved, &context).err(),
        Some(AxError::InvalidInput)
    );

    assert_eq!(
        configure(
            &mut factories,
            pit(),
            serial(),
            VMInterruptMode::Emulated,
            &configs,
            share,
        )
        .err(),
        Some(AxError::AlreadyExists)
    );

    let mut factories = DeviceFactoryRegistry::new();
    let fabric = configure(
        &mut factories,
        pit(),
        serial(),
        VMInterruptMode::Emulated,
        &[],
        share,
    )
    .unwrap();
    assert!(!fabric.has_backend());

    let mut factories = DeviceFactoryRegistry::new();
    assert_eq!(
        configure(
            &mut factories,
            pit(),
            serial(),
            VMInterruptMode::NoIrq,
            &configs,
            share,
        )
        .err(),
        Some(AxError::InvalidInput)
    );
}

struct LineRecorder;

impl IrqSink for LineRecorder {
    fn validate_line(&self, _line: IrqLineId, _trigger: InterruptTriggerMode) -> AxResult<()> {
        Ok(())
    }

    fn set_level(&self, _line: IrqLineId, _asserted: bool) -> AxResult<()> {
        Ok(())
    }

    fn pulse(&self, _line: IrqLineId) -> AxResult<()> {
        Ok(())
    }
}

#[test]
fn legacy_devices_get_their_lines() {
    let sink: Shared<dyn IrqSink> = Shared::new(Arc::new(LineRecorder));
    let fabric = InterruptFabric::with_sink(VMInterruptMode::Emulated, sink).unwrap();
    let context = DeviceBuildContext::new(Borrowed::new(&fabric as &dyn IrqResolver));

    let mut pit = device(EmulatedDeviceType::X86Pit, 0x40, 0x22);
    let line = resolve_pit_irq(&pit, &context).unwrap();
    assert_eq!(line.id(), IrqLineId(0));
    assert_eq!(line.trigger(), InterruptTriggerMode::EdgeTriggered);
    pit.irqs.push(DeviceIrqConfig {
        name: String::from("other"),
        line: 8,
    });
    pit.irqs.push(DeviceIrqConfig {
        name: String::from("irq"),
        line: 2,
    });
    assert_eq!(resolve_pit_irq(&pit, &context).unwrap().id(), IrqLineId(2));
    pit.length = 4;
    assert_eq!(
        resolve_pit_irq(&pit, &context).err(),
        Some(AxError::InvalidInput)
    );

    let mut serial = device(EmulatedDeviceType::Console, 0x3f8, 8);
    let line = resolve_serial_irq(&serial, &context).unwrap();
    assert_eq!(line.id(), IrqLineId(4));
    assert_eq!(line.trigger(), InterruptTriggerMode::LevelTriggered);
    serial.cfg_list.push(1);
    assert_eq!(
        resolve_serial_irq(&serial, &context).err(),
        Some(AxError::InvalidInput)
    );
}
