use axvirt::device_ops::BaseDeviceOps;
use axvirt::error::{AxError, AxResult};
use axvirt::factory::{
    DeviceBuildContext, DeviceBundle, DeviceFactory, DeviceFactoryRegistry, DeviceRegistration,
};
use axvirt::ioapic::{EmulatedIoApic, IoApicInterrupt};
use axvirt::irq::line::{IrqLine, IrqResolver, IrqSink};
use axvirt::irq::router::{InterruptRouter, IrqSource, MsiRoute};
use axvirt::irq::{InterruptControllerOps, InterruptDelivery, InterruptFabric, PendingInterrupt};
use axvirt::range::GuestPhysAddrRange;
use axvirt::resource::MsiMessage;
use axvirt::shared::{Borrowed, Lent, Shared};
use axvirt::types::{
    AccessWidth, EmulatedDeviceConfig, EmulatedDeviceType, GuestPhysAddr, InterruptTriggerMode,
    InterruptVector, IrqLineId, VCpuId, VMInterruptMode,
};
use axvirt::vm_devices::{AxVmDeviceConfig, AxVmDevices};
use std::sync::{Arc, Mutex, Weak};

#[derive(Clone, Copy, Debug, PartialEq, Eq)]
enum IrqEvent {
    SetLevel(IrqLineId, bool),
    Pulse(IrqLineId),
}

#[derive(Default)]
struct RecordingIrqSink {
    events: Mutex<Vec<IrqEvent>>,
}

impl RecordingIrqSink {
    fn events(&self) -> Vec<IrqEvent> {
        self.events.lock().unwrap().clone()
    }
}

fn program_ioapic_entry(ioapic: &mut EmulatedIoApic, gsi: usize, low: u32) {
    let base = GuestPhysAddr::from_usize(0xfec0_0000);
    ioapic
        .handle_write(
            GuestPhysAddr::from_usize(base.as_usize()),
            AccessWidth::Dword,
            0x10 + 2 * gsi,
        )
        .unwrap();
    ioapic
        .handle_write(
            GuestPhysAddr::from_usize(base.as_usize() + 0x10),
            AccessWidth::Dword,
            low as usize,
        )
        .unwrap();
}

impl IrqSink for RecordingIrqSink {
    fn validate_line(&self, _line: IrqLineId, _trigger: InterruptTriggerMode) -> AxResult<()> {
        Ok(())
    }

    fn set_level(&self, line: IrqLineId, asserted: bool) -> AxResult<()> {
        self.events
            .lock()
            .unwrap()
            .push(IrqEvent::SetLevel(line, asserted));
        Ok(())
    }

    fn pulse(&self, line: IrqLineId) -> AxResult<()> {
        self.events.lock().unwrap().push(IrqEvent::Pulse(line));
        Ok(())
    }
}

struct IrqMmioDevice {
    range: GuestPhysAddrRange,
    line: IrqLine,
}

impl BaseDeviceOps<GuestPhysAddrRange> for IrqMmioDevice {
    fn address_range(&self) -> GuestPhysAddrRange {
        self.range
    }

    fn emu_type(&self) -> EmulatedDeviceType {
        EmulatedDeviceType::VirtioNet
    }

    fn handle_read(&self, _addr: GuestPhysAddr, _width: AccessWidth) -> AxResult<usize> {
        Ok(0)
    }

    fn handle_write(&self, _addr: GuestPhysAddr, _width: AccessWidth, _val: usize) -> AxResult<()> {
        self.line.pulse()
    }
}

struct IrqMmioFactory;

impl DeviceFactory for IrqMmioFactory {
    fn device_type(&self) -> EmulatedDeviceType {
        EmulatedDeviceType::VirtioNet
    }

    fn build(
        &self,
        config: &EmulatedDeviceConfig,
        context: &DeviceBuildContext<'_>,
    ) -> AxResult<DeviceBundle> {
        let Some(end) = config.base_gpa.checked_add(config.length) else {
            return Err(AxError::InvalidInput);
        };
        let line = context.resolve_irq(config.irq_id, InterruptTriggerMode::EdgeTriggered)?;
        let device: Arc<dyn BaseDeviceOps<GuestPhysAddrRange>> = Arc::new(IrqMmioDevice {
            range: GuestPhysAddrRange::new(
                GuestPhysAddr::from_usize(config.base_gpa),
                GuestPhysAddr::from_usize(end),
            ),
            line,
        });
        Ok(DeviceBundle::from_registration(DeviceRegistration::Mmio(
            Shared::new(device),
        )))
    }
}

fn irq_device_config(base_gpa: usize, irq_id: usize) -> EmulatedDeviceConfig {
    EmulatedDeviceConfig {
        name: String::from("irq-mmio"),
        base_gpa,
        length: 0x1000,
        irq_id,
        irqs: vec![],
        emu_type: EmulatedDeviceType::VirtioNet,
        cfg_list: vec![],
    }
}

fn irq_factory_registry() -> DeviceFactoryRegistry {
    let mut factories = DeviceFactoryRegistry::new();
    let factory: Arc<dyn DeviceFactory> = Arc::new(IrqMmioFactory);
    factories.register(Shared::new(factory)).unwrap();
    factories
}

fn shared_sink(sink: &Arc<RecordingIrqSink>) -> Shared<dyn IrqSink> {
    let sink: Arc<dyn IrqSink> = sink.clone();
    Shared::new(sink)
}

fn recording_fabric(mode: VMInterruptMode) -> (InterruptFabric, Weak<RecordingIrqSink>) {
    let sink = Arc::new(RecordingIrqSink::default());
    let weak = Arc::downgrade(&sink);
    (
        InterruptFabric::with_sink(mode, shared_sink(&sink)).unwrap(),
        weak,
    )
}

fn context(fabric: &InterruptFabric) -> DeviceBuildContext<'_> {
    DeviceBuildContext::new(Borrowed::new(fabric as &dyn IrqResolver))
}

#[test]
fn test_no_irq_fabric_rejects_backend_and_line_resolution() {
    let sink = Arc::new(RecordingIrqSink::default());
    assert_eq!(
        InterruptFabric::with_sink(VMInterruptMode::NoIrq, shared_sink(&sink)).err(),
        Some(AxError::InvalidInput)
    );

    let fabric = InterruptFabric::new(VMInterruptMode::NoIrq);
    let context = context(&fabric);
    assert_eq!(
        AxVmDevices::build_with_factories(
            AxVmDeviceConfig::new(vec![irq_device_config(0x6_0000, 12)]),
            &irq_factory_registry(),
            &context,
        )
        .err(),
        Some(AxError::InvalidInput)
    );
}

#[test]
fn test_interrupt_fabric_preserves_event_order() {
    let sink = Arc::new(RecordingIrqSink::default());
    let fabric = InterruptFabric::with_sink(VMInterruptMode::Emulated, shared_sink(&sink)).unwrap();
    let level = fabric
        .resolve_irq(13, InterruptTriggerMode::LevelTriggered)
        .unwrap();
    let edge = fabric
        .resolve_irq(14, InterruptTriggerMode::EdgeTriggered)
        .unwrap();

    assert_eq!(level.pulse(), Err(AxError::InvalidInput));
    assert_eq!(edge.raise(), Err(AxError::InvalidInput));
    level.raise().unwrap();
    level.lower().unwrap();
    edge.pulse().unwrap();

    assert_eq!(
        sink.events(),
        vec![
            IrqEvent::SetLevel(IrqLineId(13), true),
            IrqEvent::SetLevel(IrqLineId(13), false),
            IrqEvent::Pulse(IrqLineId(14)),
        ]
    );
}

#[test]
fn test_interrupt_fabric_can_signal_backend_directly() {
    let sink = Arc::new(RecordingIrqSink::default());
    let fabric = InterruptFabric::with_sink(VMInterruptMode::Emulated, shared_sink(&sink)).unwrap();

    fabric.set_level(21, true).unwrap();
    fabric.set_level(21, false).unwrap();
    fabric.pulse(22).unwrap();

    assert_eq!(
        sink.events(),
        vec![
            IrqEvent::SetLevel(IrqLineId(21), true),
            IrqEvent::SetLevel(IrqLineId(21), false),
            IrqEvent::Pulse(IrqLineId(22)),
        ]
    );
}

#[test]
fn test_factory_device_emits_irq_through_interrupt_fabric() {
    let (fabric, sink) = recording_fabric(VMInterruptMode::Emulated);
    let devices = {
        let context = context(&fabric);
        AxVmDevices::build_with_factories(
            AxVmDeviceConfig::new(vec![irq_device_config(0x7_0000, 15)]),
            &irq_factory_registry(),
            &context,
        )
        .unwrap()
    };

    devices
        .handle_mmio_write(GuestPhysAddr::from_usize(0x7_0000), AccessWidth::Dword, 1)
        .unwrap();

    assert_eq!(
        sink.upgrade().unwrap().events(),
        vec![IrqEvent::Pulse(IrqLineId(15))]
    );
}

#[test]
fn test_dropping_devices_and_fabric_releases_irq_backend() {
    let (fabric, sink) = recording_fabric(VMInterruptMode::Emulated);
    let devices = {
        let context = context(&fabric);
        AxVmDevices::build_with_factories(
            AxVmDeviceConfig::new(vec![irq_device_config(0x8_0000, 16)]),
            &irq_factory_registry(),
            &context,
        )
        .unwrap()
    };

    drop(fabric);
    assert!(sink.upgrade().is_some());
    drop(devices);
    assert!(sink.upgrade().is_none());
}

#[test]
fn test_equal_irq_numbers_are_isolated_between_fabrics() {
    let (fabric_a, sink_a) = recording_fabric(VMInterruptMode::Emulated);
    let (fabric_b, sink_b) = recording_fabric(VMInterruptMode::Emulated);
    let devices_a = {
        let context = context(&fabric_a);
        AxVmDevices::build_with_factories(
            AxVmDeviceConfig::new(vec![irq_device_config(0x9_0000, 17)]),
            &irq_factory_registry(),
            &context,
        )
        .unwrap()
    };
    let devices_b = {
        let context = context(&fabric_b);
        AxVmDevices::build_with_factories(
            AxVmDeviceConfig::new(vec![irq_device_config(0xa_0000, 17)]),
            &irq_factory_registry(),
            &context,
        )
        .unwrap()
    };

    devices_a
        .handle_mmio_write(GuestPhysAddr::from_usize(0x9_0000), AccessWidth::Dword, 1)
        .unwrap();

    assert_eq!(
        sink_a.upgrade().unwrap().events(),
        vec![IrqEvent::Pulse(IrqLineId(17))]
    );
    assert!(sink_b.upgrade().unwrap().events().is_empty());
    assert_eq!(devices_b.iter_mmio_dev().count(), 1);
}

#[test]
fn test_ioapic_mask_and_level_eoi_semantics() {
    let mut ioapic = EmulatedIoApic::new_default();
    assert_eq!(ioapic.pulse_gsi(5), None);

    program_ioapic_entry(&mut ioapic, 5, 0x31);
    assert_eq!(
        ioapic.pulse_gsi(5),
        Some(IoApicInterrupt {
            vector: 0x31,
            level_triggered: false,
        })
    );

    program_ioapic_entry(&mut ioapic, 6, 0x32 | (1 << 15));
    assert_eq!(
        ioapic.set_gsi_level(6, true),
        Some(IoApicInterrupt {
            vector: 0x32,
            level_triggered: true,
        })
    );
    assert_eq!(ioapic.set_gsi_level(6, true), None);
    assert_eq!(
        ioapic.end_of_interrupt(0x32),
        Some(IoApicInterrupt {
            vector: 0x32,
            level_triggered: true,
        })
    );
    assert_eq!(ioapic.set_gsi_level(6, false), None);
    assert_eq!(ioapic.end_of_interrupt(0x32), None);
}

#[test]
fn test_ioapic_instances_keep_gsi_state_isolated() {
    let mut ioapic_a = EmulatedIoApic::new_default();
    let mut ioapic_b = EmulatedIoApic::new_default();
    program_ioapic_entry(&mut ioapic_a, 7, 0x33);
    program_ioapic_entry(&mut ioapic_b, 7, 0x33);

    assert!(ioapic_a.set_gsi_level(7, true).is_some());
    assert!(ioapic_b.route_asserted_lines().is_empty());
}

#[test]
fn fabric_without_backend_refuses_lines() {
    let none = InterruptFabric::default();
    assert_eq!(none.mode(), VMInterruptMode::NoIrq);
    assert_eq!(none.set_level(1, true), Err(AxError::InvalidInput));
    assert_eq!(none.pulse(1), Err(AxError::InvalidInput));
    let bare = InterruptFabric::new(VMInterruptMode::Emulated);
    assert_eq!(bare.set_level(1, true), Err(AxError::Unsupported));
    assert_eq!(
        bare.resolve_irq(1, InterruptTriggerMode::EdgeTriggered).err(),
        Some(AxError::Unsupported)
    );
    assert_eq!(bare.eoi(0, 1), Ok(()));
    assert_eq!(bare.forward_host_irq(1), Err(AxError::Unsupported));
    assert_eq!(
        bare.deliver_msi(MsiMessage { address: 0, data: 0 }),
        Err(AxError::Unsupported)
    );
    assert!(!bare.has_backend());
    assert!(!bare.has_controller());
    assert_eq!(bare.validate_mode(VMInterruptMode::Emulated), Ok(()));
    assert_eq!(
        bare.validate_mode(VMInterruptMode::Passthrough),
        Err(AxError::InvalidInput)
    );
}

#[derive(Default)]
struct RecordingController {
    injected: Mutex<Vec<MsiRoute>>,
}

impl InterruptControllerOps for RecordingController {
    fn inject_msi(&self, route: MsiRoute) -> AxResult<()> {
        self.injected.lock().unwrap().push(route);
        Ok(())
    }

    fn eoi(&self, vcpu_id: VCpuId, vector: InterruptVector) -> AxResult<()> {
        if vcpu_id == 0 && vector == 0x31 {
            Ok(())
        } else {
            Err(AxError::NotFound)
        }
    }

    fn forward_host_irq(&self, host_irq: usize) -> AxResult<()> {
        if host_irq == 3 {
            Ok(())
        } else {
            Err(AxError::InvalidInput)
        }
    }

    fn drain_pending(
        &self,
        vcpu_id: VCpuId,
        deliver: &mut Lent<'_, dyn InterruptDelivery>,
    ) -> AxResult<()> {
        deliver.get().deliver(PendingInterrupt {
            vector: vcpu_id,
            trigger: InterruptTriggerMode::EdgeTriggered,
        })
    }
}

#[derive(Default)]
struct Collect(Vec<PendingInterrupt>);

impl InterruptDelivery for Collect {
    fn deliver(&mut self, interrupt: PendingInterrupt) -> AxResult<()> {
        self.0.push(interrupt);
        Ok(())
    }
}

#[test]
fn fabric_hands_controller_work_on() {
    let sink = Arc::new(RecordingIrqSink::default());
    let controller = Arc::new(RecordingController::default());
    let handle: Arc<dyn InterruptControllerOps> = controller.clone();
    let mut fabric = InterruptFabric::with_controller(
        VMInterruptMode::Emulated,
        shared_sink(&sink),
        Shared::new(handle),
    )
    .unwrap();
    let message = MsiMessage {
        address: 0xfee0_0000,
        data: 0x45,
    };
    let route = MsiRoute {
        message,
        target_vcpu: 1,
        vector: 0x45,
    };
    assert_eq!(fabric.msi(message), Err(AxError::NotFound));
    fabric.add_msi_route(route);
    assert_eq!(fabric.msi(message), Ok(()));
    assert_eq!(controller.injected.lock().unwrap().clone(), vec![route]);

    assert_eq!(
        fabric.eoi_source(0, IrqSource::Line(IrqLineId(5)), 0x31),
        Ok(())
    );
    assert_eq!(
        fabric.eoi_source(1, IrqSource::Vector(0x31), 0x31),
        Err(AxError::NotFound)
    );
    assert_eq!(fabric.forward_host_irq(3), Ok(()));
    assert_eq!(fabric.forward_host_irq(4), Err(AxError::InvalidInput));

    let mut collected = Collect::default();
    fabric
        .drain_pending(7, &mut Lent::new(&mut collected as &mut dyn InterruptDelivery))
        .unwrap();
    assert_eq!(collected.0.len(), 1);
    assert_eq!(collected.0[0].vector, 7);

    fabric.raise(IrqLineId(5)).unwrap();
    fabric.lower(IrqLineId(5)).unwrap();
    fabric.pulse_line(IrqLineId(6)).unwrap();
    assert_eq!(
        sink.events(),
        vec![
            IrqEvent::SetLevel(IrqLineId(5), true),
            IrqEvent::SetLevel(IrqLineId(5), false),
            IrqEvent::Pulse(IrqLineId(6)),
        ]
    );
}

#[test]
fn no_irq_mode_cannot_have_a_controller() {
    let sink = Arc::new(RecordingIrqSink::default());
    let handle: Arc<dyn InterruptControllerOps> = Arc::new(RecordingController::default());
    assert_eq!(
        InterruptFabric::with_controller(
            VMInterruptMode::NoIrq,
            shared_sink(&sink),
            Shared::new(handle),
        )
        .err(),
        Some(AxError::InvalidInput)
    );
}

#[test]
fn no_irq_fabric_refuses_every_line() {
    let mut fabric = InterruptFabric::default();
    fabric.add_msi_route(MsiRoute {
        message: MsiMessage {
            address: 0xfee0_0000,
            data: 0x45,
        },
        target_vcpu: 0,
        vector: 0x45,
    });
    for line in [0, 5, usize::MAX] {
        assert_eq!(fabric.set_level(line, true), Err(AxError::InvalidInput));
        assert_eq!(fabric.set_level(line, false), Err(AxError::InvalidInput));
        assert_eq!(fabric.pulse(line), Err(AxError::InvalidInput));
        assert_eq!(
            fabric
                .resolve_irq(line, InterruptTriggerMode::EdgeTriggered)
                .err(),
            Some(AxError::InvalidInput)
        );
    }
}
