use axvirt::device_ops::{BaseDeviceOps, MmioDevice, PollableDeviceOps};
use axvirt::error::{AxError, AxResult};
use axvirt::factory::{DeviceBuildContext, DeviceFactory};
use axvirt::irq::aarch64::RedistributorPlacement;
use axvirt::irq::gppt_factory::{
    GpptDistributorFactory, GpptItsFactory, GpptRedistributorFactory,
};
use axvirt::irq::line::{IrqLine, IrqResolver, IrqSink};
use axvirt::irq::port_factory::{PolledPortDevice, X86PitFactory, X86SerialFactory};
use axvirt::irq::InterruptFabric;
use axvirt::range::{GuestPhysAddrRange, PortRange};
use axvirt::shared::{Borrowed, Shared};
use axvirt::types::{
    AccessWidth, EmulatedDeviceConfig, EmulatedDeviceType, GuestPhysAddr, InterruptTriggerMode,
    IrqLineId, Port, VMInterruptMode,
};
use axvirt::vm_devices::{AxVmDeviceConfig, AxVmDevices};
use std::sync::{Arc, Mutex};

struct Window {
    range: GuestPhysAddrRange,
    value: usize,
}

impl BaseDeviceOps<GuestPhysAddrRange> for Window {
    fn address_range(&self) -> GuestPhysAddrRange {
        self.range
    }

    fn emu_type(&self) -> EmulatedDeviceType {
        EmulatedDeviceType::InterruptController
    }

    fn handle_read(&self, _addr: GuestPhysAddr, _width: AccessWidth) -> AxResult<usize> {
        Ok(self.value)
    }

    fn handle_write(&self, _addr: GuestPhysAddr, _width: AccessWidth, _value: usize) -> AxResult<()> {
        Ok(())
    }
}

fn window(base: usize, length: usize, value: usize) -> MmioDevice {
    let device: Arc<dyn BaseDeviceOps<GuestPhysAddrRange>> = Arc::new(Window {
        range: GuestPhysAddrRange::new(GuestPhysAddr(base), GuestPhysAddr(base + length)),
        value,
    });
    Shared::new(device)
}

struct Ticker {
    line: IrqLine,
    polled: Arc<Mutex<Vec<u64>>>,
}

impl BaseDeviceOps<PortRange> for Ticker {
    fn address_range(&self) -> PortRange {
        PortRange::new(Port(0x40), Port(0x61))
    }

    fn emu_type(&self) -> EmulatedDeviceType {
        EmulatedDeviceType::X86Pit
    }

    fn handle_read(&self, _addr: Port, _width: AccessWidth) -> AxResult<usize> {
        Ok(self.line.id().0)
    }

    fn handle_write(&self, _addr: Port, _width: AccessWidth, _value: usize) -> AxResult<()> {
        self.line.pulse()
    }
}

impl PollableDeviceOps for Ticker {
    fn poll(&self, now_ns: u64) -> AxResult<()> {
        self.polled.lock().unwrap().push(now_ns);
        Ok(())
    }
}

fn ticker(line: IrqLine, polled: Arc<Mutex<Vec<u64>>>) -> PolledPortDevice {
    let device = Arc::new(Ticker { line, polled });
    let port: Arc<dyn BaseDeviceOps<PortRange>> = device.clone();
    let poller: Arc<dyn PollableDeviceOps> = device;
    PolledPortDevice {
        port: Shared::new(port),
        poller: Shared::new(poller),
    }
}

struct EdgeOnly;

impl IrqSink for EdgeOnly {
    fn validate_line(&self, _line: IrqLineId, trigger: InterruptTriggerMode) -> AxResult<()> {
        match trigger {
            InterruptTriggerMode::EdgeTriggered => Ok(()),
            InterruptTriggerMode::LevelTriggered => Err(AxError::Unsupported),
        }
    }

    fn set_level(&self, _line: IrqLineId, _asserted: bool) -> AxResult<()> {
        Err(AxError::Unsupported)
    }

    fn pulse(&self, _line: IrqLineId) -> AxResult<()> {
        Ok(())
    }
}

fn edge_fabric() -> InterruptFabric {
    let sink: Arc<dyn IrqSink> = Arc::new(EdgeOnly);
    InterruptFabric::with_sink(VMInterruptMode::Emulated, Shared::new(sink)).unwrap()
}

fn config(
    emu_type: EmulatedDeviceType,
    base_gpa: usize,
    length: usize,
    cfg_list: Vec<usize>,
) -> EmulatedDeviceConfig {
    EmulatedDeviceConfig {
        name: String::from("device"),
        base_gpa,
        length,
        irq_id: 0,
        irqs: vec![],
        emu_type,
        cfg_list,
    }
}

#[test]
fn pit_factory_builds_a_polled_port_device() {
    let polled = Arc::new(Mutex::new(Vec::new()));
    let seen = polled.clone();
    let factory = X86PitFactory::new(move |line| ticker(line, seen.clone()));
    assert_eq!(factory.device_type(), EmulatedDeviceType::X86Pit);

    let fabric = edge_fabric();
    let context = DeviceBuildContext::new(Borrowed::new(&fabric as &dyn IrqResolver));
    let bundle = factory
        .build(&config(EmulatedDeviceType::X86Pit, 0x40, 0x22, vec![]), &context)
        .unwrap();
    assert_eq!(bundle.port.len(), 1);
    assert_eq!(bundle.pollable.len(), 1);
    assert_eq!(bundle.mmio.len(), 0);

    let mut devices = AxVmDevices::new(AxVmDeviceConfig::new(vec![])).unwrap();
    devices.register_bundle(bundle).unwrap();
    assert_eq!(devices.handle_port_read(Port(0x61), AccessWidth::Byte), Ok(0));
    assert_eq!(
        devices.handle_port_write(Port(0x43), AccessWidth::Byte, 1),
        Ok(())
    );
    for device in devices.iter_pollable_dev() {
        device.get().poll(7).unwrap();
    }
    assert_eq!(*polled.lock().unwrap(), vec![7]);

    assert_eq!(
        factory
            .build(&config(EmulatedDeviceType::X86Pit, 0x41, 0x22, vec![]), &context)
            .err(),
        Some(AxError::InvalidInput)
    );
}

#[test]
fn serial_factory_passes_a_refused_line_on() {
    let polled = Arc::new(Mutex::new(Vec::new()));
    let factory = X86SerialFactory::new(move |line| ticker(line, polled.clone()));
    assert_eq!(factory.device_type(), EmulatedDeviceType::Console);

    let fabric = edge_fabric();
    let context = DeviceBuildContext::new(Borrowed::new(&fabric as &dyn IrqResolver));
    assert_eq!(
        factory
            .build(&config(EmulatedDeviceType::Console, 0x3f8, 8, vec![]), &context)
            .err(),
        Some(AxError::Unsupported)
    );
    assert_eq!(
        factory
            .build(&config(EmulatedDeviceType::Console, 0x3f8, 8, vec![1]), &context)
            .err(),
        Some(AxError::InvalidInput)
    );
}

#[test]
fn redistributor_factory_builds_one_device_per_cpu() {
    let factory = GpptRedistributorFactory::new(|placement: RedistributorPlacement| {
        window(placement.base_gpa, placement.length, placement.pcpu_id)
    });
    assert_eq!(factory.device_type(), EmulatedDeviceType::GPPTRedistributor);

    let fabric = edge_fabric();
    let context = DeviceBuildContext::new(Borrowed::new(&fabric as &dyn IrqResolver));
    let kind = EmulatedDeviceType::GPPTRedistributor;
    let bundle = factory
        .build(
            &config(kind, 0x80a_0000, 0x2_0000, vec![2, 0x2_0000, 4]),
            &context,
        )
        .unwrap();
    let mut devices = AxVmDevices::new(AxVmDeviceConfig::new(vec![])).unwrap();
    devices.register_bundle(bundle).unwrap();
    let width = AccessWidth::Dword;
    assert_eq!(
        devices.handle_mmio_read(GuestPhysAddr(0x80a_0008), width),
        Ok(4)
    );
    assert_eq!(
        devices.handle_mmio_read(GuestPhysAddr(0x80c_0000), width),
        Ok(5)
    );
    assert_eq!(
        devices.handle_mmio_read(GuestPhysAddr(0x80e_0000), width),
        Err(AxError::NotFound)
    );
    assert_eq!(
        factory
            .build(&config(kind, 0x1000, 0x1000, vec![0, 1, 0]), &context)
            .err(),
        Some(AxError::InvalidInput)
    );
}

#[test]
fn overlapping_redistributors_are_refused_by_the_bus() {
    let factory = GpptRedistributorFactory::new(|placement: RedistributorPlacement| {
        window(placement.base_gpa, placement.length, placement.pcpu_id)
    });
    let fabric = edge_fabric();
    let context = DeviceBuildContext::new(Borrowed::new(&fabric as &dyn IrqResolver));
    let kind = EmulatedDeviceType::GPPTRedistributor;
    let bundle = factory
        .build(&config(kind, 0x1000, 0x2000, vec![2, 0x1000, 0]), &context)
        .unwrap();
    let mut devices = AxVmDevices::new(AxVmDeviceConfig::new(vec![])).unwrap();
    assert_eq!(devices.register_bundle(bundle), Err(AxError::AddrInUse));
}

#[test]
fn distributor_and_its_factories_hand_their_arguments_over() {
    let distributor = GpptDistributorFactory::new(|base, length| window(base, length, 1));
    let its = GpptItsFactory::new(|base, length, host| window(base, length, host));
    assert_eq!(distributor.device_type(), EmulatedDeviceType::GPPTDistributor);
    assert_eq!(its.device_type(), EmulatedDeviceType::GPPTITS);

    let fabric = edge_fabric();
    let context = DeviceBuildContext::new(Borrowed::new(&fabric as &dyn IrqResolver));
    let mut devices = AxVmDevices::new(AxVmDeviceConfig::new(vec![])).unwrap();
    devices
        .register_bundle(
            distributor
                .build(
                    &config(EmulatedDeviceType::GPPTDistributor, 0x1000, 0x1000, vec![]),
                    &context,
                )
                .unwrap(),
        )
        .unwrap();
    devices
        .register_bundle(
            its.build(
                &config(EmulatedDeviceType::GPPTITS, 0x4000, 0x1000, vec![0x99]),
                &context,
            )
            .unwrap(),
        )
        .unwrap();
    let width = AccessWidth::Qword;
    assert_eq!(devices.handle_mmio_read(GuestPhysAddr(0x1fff), width), Ok(1));
    assert_eq!(
        devices.handle_mmio_read(GuestPhysAddr(0x4000), width),
        Ok(0x99)
    );
    assert_eq!(
        distributor
            .build(
                &config(EmulatedDeviceType::GPPTDistributor, 0x1000, 0x1000, vec![1]),
                &context
            )
            .err(),
        Some(AxError::InvalidInput)
    );
    assert_eq!(
        its.build(
            &config(EmulatedDeviceType::GPPTITS, 0x4000, 0, vec![1]),
            &context
        )
        .err(),
        Some(AxError::InvalidInput)
    );
}
