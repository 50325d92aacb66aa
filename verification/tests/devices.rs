use axvirt::bus::{BusAccess, BusAddress, BusResponse, DeviceError};
use axvirt::bus_router::BusRouter;
use axvirt::device::AxEmuDevices;
use axvirt::device_ops::{BaseDeviceOps, MmioDevice, PollableDeviceOps, PortDevice, SysRegDevice};
use axvirt::error::{AxError, AxResult};
use axvirt::factory::{
    DeviceBuildContext, DeviceBundle, DeviceFactory, DeviceFactoryRegistry, DeviceRegistration,
};
use axvirt::irq::line::IrqResolver;
use axvirt::irq::InterruptFabric;
use axvirt::lifecycle::DeviceLifecycle;
use axvirt::range::{
    DeviceAddrRange, GuestPhysAddrRange, PortRange, SysRegAddrRange,
};
use axvirt::range_alloc::RangeAllocator;
use axvirt::resource::{BusKind, DeviceDescriptor, DeviceId, Resource};
use axvirt::runtime::x86_irq::poll_devices;
use axvirt::shared::{Borrowed, Shared};
use axvirt::types::{
    AccessWidth, EmulatedDeviceConfig, EmulatedDeviceType, GuestPhysAddr, Port, SysRegAddr,
    VMInterruptMode,
};
use axvirt::vm_devices::{AxVmDeviceConfig, AxVmDevices};
use std::sync::{Arc, Mutex};

struct Probe<R> {
    range: R,
    answer: usize,
}

impl<R: DeviceAddrRange + Send + Sync> BaseDeviceOps<R> for Probe<R> {
    fn address_range(&self) -> R {
        self.range
    }

    fn emu_type(&self) -> EmulatedDeviceType {
        EmulatedDeviceType::Dummy
    }

    fn handle_read(&self, _addr: R::Addr, _width: AccessWidth) -> AxResult<usize> {
        Ok(self.answer)
    }

    fn handle_write(&self, _addr: R::Addr, _width: AccessWidth, value: usize) -> AxResult<()> {
        if value == self.answer {
            Ok(())
        } else {
            Err(AxError::BadState)
        }
    }
}

fn mmio_range(start: usize, end: usize) -> GuestPhysAddrRange {
    GuestPhysAddrRange::new(GuestPhysAddr(start), GuestPhysAddr(end))
}

fn mmio(start: usize, end: usize, answer: usize) -> MmioDevice {
    Shared::new(Arc::new(Probe {
        range: mmio_range(start, end),
        answer,
    }))
}

fn port(start: u16, end: u16, answer: usize) -> PortDevice {
    Shared::new(Arc::new(Probe {
        range: PortRange::new(Port(start), Port(end)),
        answer,
    }))
}

fn sysreg(start: usize, end: usize, answer: usize) -> SysRegDevice {
    Shared::new(Arc::new(Probe {
        range: SysRegAddrRange::new(SysRegAddr(start), SysRegAddr(end)),
        answer,
    }))
}

fn no_devices() -> AxVmDevices {
    AxVmDevices::new(AxVmDeviceConfig::new(vec![])).unwrap()
}

#[test]
fn ranges_hold_their_addresses() {
    let range = mmio_range(0x1000, 0x2000);
    assert!(range.contains(GuestPhysAddr(0x1000)));
    assert!(!range.contains(GuestPhysAddr(0x2000)));
    assert!(!range.is_empty());
    assert!(mmio_range(0x1000, 0x1000).is_empty());
    assert!(range.overlaps(&mmio_range(0x1fff, 0x3000)));
    assert!(!range.overlaps(&mmio_range(0x2000, 0x3000)));
    assert_eq!(range.end, GuestPhysAddr(0x2000));

    let ports = PortRange::new(Port(0x40), Port(0x43));
    assert!(ports.contains(Port(0x43)));
    assert!(!ports.contains(Port(0x44)));
    assert!(ports.overlaps(&PortRange::new(Port(0x43), Port(0x50))));
    assert!(!ports.overlaps(&PortRange::new(Port(0x44), Port(0x50))));
    assert!(PortRange::new(Port(2), Port(1)).is_empty());

    let regs = SysRegAddrRange::new(SysRegAddr(1), SysRegAddr(1));
    assert!(regs.contains(SysRegAddr(1)));
    assert!(!regs.is_empty());
    assert!(regs.same_as(&regs));
}

#[test]
fn bus_devices_stay_apart() {
    let mut devices: AxEmuDevices<GuestPhysAddrRange> = AxEmuDevices::default();
    devices.add_dev(mmio(0x1000, 0x2000, 1)).unwrap();
    assert_eq!(
        devices.add_dev(mmio(0x1000, 0x2000, 2)),
        Err(AxError::AlreadyExists)
    );
    assert_eq!(
        devices.add_dev(mmio(0x1800, 0x2800, 2)),
        Err(AxError::AddrInUse)
    );
    assert_eq!(
        devices.add_dev(mmio(0x3000, 0x3000, 2)),
        Err(AxError::InvalidInput)
    );
    devices.add_dev(mmio(0x2000, 0x3000, 2)).unwrap();
    assert_eq!(devices.iter().count(), 2);
    let found = devices.find_dev(GuestPhysAddr(0x2000)).unwrap();
    assert_eq!(
        found.get().handle_read(GuestPhysAddr(0x2000), AccessWidth::Byte),
        Ok(2)
    );
    assert!(devices.find_dev(GuestPhysAddr(0x3000)).is_none());
    devices.iter_mut()[0] = mmio(0x1000, 0x2000, 9);
    let replaced = devices.find_dev(GuestPhysAddr(0x1000)).unwrap();
    assert_eq!(
        replaced.get().handle_read(GuestPhysAddr(0x1000), AccessWidth::Byte),
        Ok(9)
    );
}

#[test]
fn accesses_reach_the_owner_on_each_bus() {
    let mut devices = no_devices();
    devices.add_mmio_dev(mmio(0x1000, 0x2000, 1)).unwrap();
    devices.add_port_dev(port(0x40, 0x43, 2)).unwrap();
    devices.add_sys_reg_dev(sysreg(0x10, 0x10, 3)).unwrap();
    let width = AccessWidth::Dword;

    assert_eq!(devices.handle_mmio_read(GuestPhysAddr(0x1fff), width), Ok(1));
    assert_eq!(devices.handle_port_read(Port(0x43), width), Ok(2));
    assert_eq!(devices.handle_sys_reg_read(SysRegAddr(0x10), width), Ok(3));
    assert_eq!(
        devices.handle_mmio_read(GuestPhysAddr(0x2000), width),
        Err(AxError::NotFound)
    );
    assert_eq!(
        devices.handle_port_write(Port(0x44), width, 0),
        Err(AxError::NotFound)
    );
    assert_eq!(devices.handle_mmio_write(GuestPhysAddr(0x1000), width, 1), Ok(()));
    assert_eq!(
        devices.handle_sys_reg_write(SysRegAddr(0x10), width, 1),
        Err(AxError::BadState)
    );
    assert_eq!(
        devices.handle_bus_access(BusAccess::write(BusAddress::Port(Port(0x40)), width, 2)),
        Ok(BusResponse::WriteComplete)
    );
    assert_eq!(
        devices.handle_bus_access(BusAccess::read(BusAddress::SysReg(SysRegAddr(0x10)), width)),
        Ok(BusResponse::Read { value: 3 })
    );
    assert_eq!(
        devices.handle_bus_access(BusAccess::read(
            BusAddress::PciConfig {
                segment: 0,
                bus: 0,
                device: 0,
                function: 0,
                offset: 0,
            },
            width,
        )),
        Err(AxError::Unsupported)
    );
    assert_eq!(devices.iter_port_dev().count(), 1);
    assert_eq!(devices.iter_sys_reg_dev().count(), 1);
}

struct Ticker {
    fails: bool,
}

impl PollableDeviceOps for Ticker {
    fn poll(&self, now_ns: u64) -> AxResult<()> {
        if self.fails {
            Err(AxError::Other(now_ns as i32))
        } else {
            Ok(())
        }
    }
}

fn ticker(fails: bool) -> Shared<dyn PollableDeviceOps> {
    Shared::new(Arc::new(Ticker { fails }))
}

fn pollable(device: &Shared<dyn PollableDeviceOps>) -> DeviceRegistration {
    DeviceRegistration::Pollable(device.clone())
}

struct Hooked {
    name: &'static str,
    log: Arc<Mutex<Vec<(&'static str, &'static str)>>>,
    fails: bool,
}

impl Hooked {
    fn note(&self, what: &'static str) -> AxResult<()> {
        self.log.lock().unwrap().push((self.name, what));
        if self.fails {
            Err(AxError::BadState)
        } else {
            Ok(())
        }
    }
}

impl DeviceLifecycle for Hooked {
    fn reset(&self) -> AxResult<()> {
        self.note("reset")
    }

    fn suspend(&self) -> AxResult<()> {
        self.note("suspend")
    }

    fn resume(&self) -> AxResult<()> {
        self.note("resume")
    }
}

#[test]
fn bundles_are_registered_as_a_whole() {
    let mut devices = no_devices();
    devices.add_mmio_dev(mmio(0x1000, 0x2000, 1)).unwrap();
    let bundle = DeviceBundle::new()
        .with_registration(DeviceRegistration::Mmio(mmio(0x2000, 0x3000, 2)))
        .with_registration(DeviceRegistration::Mmio(mmio(0x1000, 0x1001, 3)));
    assert_eq!(devices.register_bundle(bundle), Err(AxError::AddrInUse));
    assert_eq!(devices.iter_mmio_dev().count(), 1);

    let overlapping = DeviceBundle::new()
        .with_registration(DeviceRegistration::Port(port(1, 4, 0)))
        .with_registration(DeviceRegistration::Port(port(4, 8, 0)));
    assert_eq!(devices.register_bundle(overlapping), Err(AxError::AddrInUse));

    let seven = ticker(false);
    let good = || {
        DeviceBundle::new()
            .with_registration(DeviceRegistration::Port(port(1, 4, 0)))
            .with_registration(pollable(&seven))
    };
    assert_eq!(devices.register_bundle(good()), Ok(()));
    assert_eq!(devices.register_bundle(good()), Err(AxError::AlreadyExists));
    assert_eq!(
        devices.register_bundle(DeviceBundle::from_registration(pollable(&seven))),
        Err(AxError::AlreadyExists)
    );
    let eight = ticker(false);
    let twice = DeviceBundle::new()
        .with_registration(pollable(&eight))
        .with_registration(pollable(&eight));
    assert_eq!(devices.register_bundle(twice), Err(AxError::AlreadyExists));
    assert_eq!(devices.iter_pollable_dev().count(), 1);
    assert_eq!(
        devices.register_bundle(DeviceBundle::from_registration(pollable(&eight))),
        Ok(())
    );
}

#[test]
fn devices_of_equal_value_are_told_apart() {
    let mut devices = no_devices();
    let both = DeviceBundle::new()
        .with_registration(pollable(&ticker(false)))
        .with_registration(pollable(&ticker(false)));
    assert_eq!(devices.register_bundle(both), Ok(()));
    let other = DeviceBundle::from_registration(pollable(&ticker(false)));
    assert_eq!(devices.register_bundle(other), Ok(()));
    assert_eq!(devices.iter_pollable_dev().count(), 3);
}

#[test]
fn repetition_is_the_last_objection_to_a_bundle() {
    let mut devices = no_devices();
    let bundle = || {
        DeviceBundle::new()
            .with_registration(DeviceRegistration::Port(port(1, 4, 0)))
            .with_registration(pollable(&ticker(false)))
    };
    assert_eq!(
        devices.register_compared(bundle(), true),
        Err(AxError::AlreadyExists)
    );
    assert_eq!(devices.iter_port_dev().count(), 0);
    assert_eq!(devices.register_compared(bundle(), false), Ok(()));
    assert_eq!(devices.iter_port_dev().count(), 1);
    assert_eq!(devices.iter_pollable_dev().count(), 1);
    let overlapping = DeviceBundle::from_registration(DeviceRegistration::Port(port(4, 8, 0)));
    assert_eq!(
        devices.register_compared(overlapping, true),
        Err(AxError::AddrInUse)
    );
}

#[test]
fn same_bus_device_is_refused_twice_in_a_bundle() {
    let mut devices = no_devices();
    let device = mmio(0x1000, 0x2000, 1);
    let twice = DeviceBundle::new()
        .with_registration(DeviceRegistration::Mmio(device.clone()))
        .with_registration(DeviceRegistration::Mmio(device.clone()));
    assert_eq!(devices.register_bundle(twice), Err(AxError::AlreadyExists));
    assert_eq!(devices.iter_mmio_dev().count(), 0);
}

#[test]
fn all_devices_are_polled() {
    let mut devices = no_devices();
    for fails in [true, false] {
        devices
            .register_bundle(DeviceBundle::from_registration(pollable(&ticker(fails))))
            .unwrap();
    }
    assert_eq!(
        poll_devices(&devices, 5),
        vec![Err(AxError::Other(5)), Ok(())]
    );
}

fn with_hooks(fails: Option<&'static str>) -> (AxVmDevices, Arc<Mutex<Vec<(&'static str, &'static str)>>>) {
    let log = Arc::new(Mutex::new(Vec::new()));
    let mut devices = no_devices();
    for name in ["a", "b", "c"] {
        let device: Shared<dyn DeviceLifecycle> = Shared::new(Arc::new(Hooked {
            name,
            log: log.clone(),
            fails: fails == Some(name),
        }));
        let capability = || {
            DeviceBundle::from_registration(DeviceRegistration::Lifecycle(device.clone()))
        };
        devices.register_bundle(capability()).unwrap();
        assert_eq!(
            devices.register_bundle(capability()),
            Err(AxError::AlreadyExists)
        );
    }
    (devices, log)
}

#[test]
fn lifecycle_runs_in_registration_order_and_back() {
    let (devices, log) = with_hooks(None);
    assert_eq!(devices.iter_lifecycle_dev().count(), 3);
    devices.reset_devices().unwrap();
    devices.suspend_devices().unwrap();
    devices.resume_devices().unwrap();
    assert_eq!(
        log.lock().unwrap().clone(),
        vec![
            ("a", "reset"),
            ("b", "reset"),
            ("c", "reset"),
            ("a", "suspend"),
            ("b", "suspend"),
            ("c", "suspend"),
            ("c", "resume"),
            ("b", "resume"),
            ("a", "resume"),
        ]
    );
}

#[test]
fn lifecycle_stops_at_the_first_failure() {
    let (devices, log) = with_hooks(Some("b"));
    assert_eq!(devices.reset_devices(), Err(AxError::BadState));
    assert_eq!(devices.resume_devices(), Err(AxError::BadState));
    assert_eq!(
        log.lock().unwrap().clone(),
        vec![("a", "reset"), ("b", "reset"), ("c", "resume"), ("b", "resume")]
    );
}

#[test]
fn ivc_channels_are_handed_out_and_taken_back() {
    let mut devices = no_devices();
    assert_eq!(devices.alloc_ivc_channel(0x1000), Err(AxError::InvalidInput));
    assert_eq!(
        devices.release_ivc_channel(GuestPhysAddr(0x1_0000), 0x1000),
        Err(AxError::InvalidInput)
    );
    let channel =
        |range| DeviceBundle::from_registration(DeviceRegistration::IvcChannel(range));
    assert_eq!(
        devices.register_bundle(channel(0x1_0000..0x1_0000)),
        Err(AxError::InvalidInput)
    );
    devices.register_bundle(channel(0x1_0000..0x1_3000)).unwrap();
    assert_eq!(
        devices.register_bundle(channel(0x2_0000..0x3_0000)),
        Err(AxError::AlreadyExists)
    );
    assert_eq!(devices.alloc_ivc_channel(0), Err(AxError::InvalidInput));
    assert_eq!(devices.alloc_ivc_channel(0x1800), Err(AxError::InvalidInput));
    assert_eq!(devices.alloc_ivc_channel(0x1000), Ok(GuestPhysAddr(0x1_0000)));
    assert_eq!(devices.alloc_ivc_channel(0x2000), Ok(GuestPhysAddr(0x1_1000)));
    assert_eq!(devices.alloc_ivc_channel(0x1000), Err(AxError::NoMemory));
    assert_eq!(
        devices.release_ivc_channel(GuestPhysAddr(0x1_0000), 0x2000),
        Err(AxError::InvalidInput)
    );
    assert_eq!(
        devices.release_ivc_channel(GuestPhysAddr(0x1_0000), 0x800),
        Err(AxError::InvalidInput)
    );
    assert_eq!(devices.release_ivc_channel(GuestPhysAddr(0x1_0000), 0x1000), Ok(()));
    assert_eq!(devices.alloc_ivc_channel(0x1000), Ok(GuestPhysAddr(0x1_0000)));
}

#[test]
fn range_allocator_is_first_fit() {
    let mut allocator = RangeAllocator::new(0..100);
    assert_eq!(allocator.allocate_range(30), Some(0..30));
    assert_eq!(allocator.allocate_range(30), Some(30..60));
    assert!(allocator.free_range(0..30));
    assert!(!allocator.free_range(0..30));
    assert_eq!(allocator.allocate_range(35), Some(60..95));
    assert_eq!(allocator.allocate_range(10), Some(0..10));
    assert_eq!(allocator.allocate_range(25), None);
    assert_eq!(allocator.allocate_range(20), Some(10..30));
}

struct PairFactory;

impl DeviceFactory for PairFactory {
    fn device_type(&self) -> EmulatedDeviceType {
        EmulatedDeviceType::Dummy
    }

    fn build(
        &self,
        config: &EmulatedDeviceConfig,
        _context: &DeviceBuildContext<'_>,
    ) -> AxResult<DeviceBundle> {
        Ok(DeviceBundle::from_registration(DeviceRegistration::Mmio(
            mmio(config.base_gpa, config.base_gpa + config.length, config.irq_id),
        )))
    }
}

fn dummy(base_gpa: usize, emu_type: EmulatedDeviceType) -> EmulatedDeviceConfig {
    EmulatedDeviceConfig {
        name: String::from("dummy"),
        base_gpa,
        length: 0x1000,
        irq_id: 0,
        irqs: vec![],
        emu_type,
        cfg_list: vec![],
    }
}

#[test]
fn configured_devices_need_factories() {
    let config = AxVmDeviceConfig::new(vec![dummy(0x1000, EmulatedDeviceType::Dummy)]);
    assert_eq!(AxVmDevices::new(config).err(), Some(AxError::Unsupported));

    let mut factories = DeviceFactoryRegistry::new();
    let factory = || -> Shared<dyn DeviceFactory> { Shared::new(Arc::new(PairFactory)) };
    factories.register(factory()).unwrap();
    assert_eq!(factories.register(factory()), Err(AxError::AlreadyExists));
    let fabric = InterruptFabric::new(VMInterruptMode::NoIrq);
    let context = DeviceBuildContext::new(Borrowed::new(&fabric as &dyn IrqResolver));

    let build = |configs| {
        AxVmDevices::build_with_factories(AxVmDeviceConfig::new(configs), &factories, &context)
    };
    let devices = build(vec![
        dummy(0x1000, EmulatedDeviceType::Dummy),
        dummy(0x2000, EmulatedDeviceType::Dummy),
    ])
    .unwrap();
    assert_eq!(devices.iter_mmio_dev().count(), 2);
    assert_eq!(
        build(vec![dummy(0x1000, EmulatedDeviceType::Console)]).err(),
        Some(AxError::Unsupported)
    );
    assert_eq!(
        build(vec![
            dummy(0x1000, EmulatedDeviceType::Dummy),
            dummy(0x1800, EmulatedDeviceType::Dummy),
        ])
        .err(),
        Some(AxError::AddrInUse)
    );
}

#[test]
fn router_registers_and_dispatches() {
    let mut router = BusRouter::new();
    assert_eq!(router.register_mmio("a", mmio(0x1000, 0x2000, 1)), Ok(DeviceId(1)));
    assert_eq!(
        router.register_mmio("b", mmio(0x1fff, 0x3000, 1)),
        Err(AxError::AddrInUse)
    );
    assert_eq!(
        router.register_mmio("c", mmio(0x1000, 0x1000, 1)),
        Err(AxError::InvalidInput)
    );
    assert_eq!(router.register_port("d", port(0x40, 0x43, 2)), Ok(DeviceId(4)));
    assert_eq!(router.register_sysreg("e", sysreg(1, 2, 3)), Ok(DeviceId(5)));
    assert_eq!(router.registry().devices().len(), 3);
    assert_eq!(router.registry().devices()[0].name(), "a");
    assert_eq!(
        router.registry().devices()[1].resources().as_slice(),
        &[Resource::Port(PortRange::new(Port(0x40), Port(0x43)))]
    );

    let width = AccessWidth::Dword;
    let read = |address| router.dispatch(BusAccess::read(address, width));
    assert_eq!(
        read(BusAddress::Mmio(GuestPhysAddr(0x1000))),
        Ok(BusResponse::Read { value: 1 })
    );
    assert_eq!(
        read(BusAddress::Mmio(GuestPhysAddr(0x2000))),
        Err(AxError::NotFound)
    );
    assert_eq!(
        read(BusAddress::Port(Port(0x43))),
        Ok(BusResponse::Read { value: 2 })
    );
    assert_eq!(
        router.dispatch(BusAccess::write(BusAddress::SysReg(SysRegAddr(2)), width, 3)),
        Ok(BusResponse::WriteComplete)
    );
    assert_eq!(
        router.dispatch(BusAccess::write(BusAddress::SysReg(SysRegAddr(2)), width, 4)),
        Err(AxError::BadState)
    );
    assert_eq!(
        read(BusAddress::PciConfig {
            segment: 0,
            bus: 0,
            device: 0,
            function: 0,
            offset: 0,
        }),
        Err(AxError::Unsupported)
    );
    assert_eq!(
        BusRouter::default().register_mmio("a", mmio(0x1000, 0x2000, 1)),
        Ok(DeviceId(0))
    );
}

#[test]
fn bus_values_know_their_kind() {
    let access = BusAccess::read(BusAddress::Port(Port(1)), AccessWidth::Byte);
    assert_eq!(access.kind(), BusKind::PortIo);
    assert_eq!(BusAddress::Mmio(GuestPhysAddr(0)).kind(), BusKind::Mmio);
    assert_eq!(BusAddress::SysReg(SysRegAddr(0)).kind(), BusKind::SysReg);
    assert_eq!(
        BusAddress::PciConfig {
            segment: 0,
            bus: 0,
            device: 0,
            function: 0,
            offset: 0,
        }
        .kind(),
        BusKind::PciConfig
    );
    assert_eq!(DeviceError::NotFound.as_ax_error(), AxError::NotFound);
    assert_eq!(DeviceError::InvalidWidth.as_ax_error(), AxError::InvalidInput);
    assert_eq!(DeviceError::ReadOnly.as_ax_error(), AxError::InvalidInput);
    assert_eq!(DeviceError::WriteOnly.as_ax_error(), AxError::InvalidInput);
    assert_eq!(DeviceError::ResourceConflict.as_ax_error(), AxError::AddrInUse);
    assert_eq!(DeviceError::Unsupported.as_ax_error(), AxError::Unsupported);
}
