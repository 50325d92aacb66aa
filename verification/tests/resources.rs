use axvirt::error::AxError;
use axvirt::range::{GuestPhysAddrRange, PortRange, SysRegAddrRange};
use axvirt::registry::{DeviceRegistry, RegisteredDevice};
use axvirt::resource::{
    dma_resource, mmio_resource, pci_bar_resource, port_resource, BusKind, DeviceCapabilities,
    DeviceDescriptor, DeviceId, IrqTarget, Resource, ResourceSet,
};
use axvirt::types::{GuestPhysAddr, InterruptTriggerMode, IrqLineId, Port, SysRegAddr};

fn mmio(start: usize, end: usize) -> Resource {
    Resource::Mmio(GuestPhysAddrRange::new(
        GuestPhysAddr(start),
        GuestPhysAddr(end),
    ))
}

fn irq(line: usize) -> Resource {
    Resource::Irq {
        line: IrqLineId(line),
        trigger: InterruptTriggerMode::EdgeTriggered,
        target: IrqTarget::Bootstrap,
    }
}

#[test]
fn resources_are_built_from_base_and_size() {
    assert_eq!(
        mmio_resource(GuestPhysAddr(0x1000), 0x1000),
        Some(mmio(0x1000, 0x2000))
    );
    assert_eq!(mmio_resource(GuestPhysAddr(usize::MAX), 1), None);
    assert_eq!(
        port_resource(Port(0x40), 4),
        Some(Resource::Port(PortRange::new(Port(0x40), Port(0x43))))
    );
    assert_eq!(port_resource(Port(0x40), 0), None);
    assert_eq!(port_resource(Port(0xffff), 2), None);
    assert_eq!(
        port_resource(Port(0xffff), 1),
        Some(Resource::Port(PortRange::new(Port(0xffff), Port(0xffff))))
    );
    assert_eq!(
        dma_resource(0x1000..0x2000),
        Some(Resource::Dma {
            aperture: Some(GuestPhysAddrRange::new(
                GuestPhysAddr(0x1000),
                GuestPhysAddr(0x2000)
            )),
        })
    );
    assert_eq!(dma_resource(0x1000..0x1000), None);
    assert!(pci_bar_resource(5, None, 0x100, true).is_some());
    assert_eq!(pci_bar_resource(6, None, 0x100, true), None);
    assert_eq!(pci_bar_resource(0, None, 0, true), None);
}

#[test]
fn malformed_resources_are_found() {
    let good = mmio(0x1000, 0x2000);
    let bad = Resource::Msi { vectors: 0 };
    let set = ResourceSet::new().with(good).with(bad).with(mmio(1, 1));
    assert_eq!(set.first_invalid(), Some(&bad));
    assert_eq!(ResourceSet::from_vec(vec![good]).first_invalid(), None);
    assert!(ResourceSet::default().is_empty());
    assert!(!irq(3).is_empty_or_invalid());
    assert!(Resource::SysReg(SysRegAddrRange::new(SysRegAddr(2), SysRegAddr(1)))
        .is_empty_or_invalid());
    assert!(!Resource::Dma { aperture: None }.is_empty_or_invalid());
    let mut pushed = set.clone();
    pushed.push(good);
    assert_eq!(pushed.as_slice().len(), 4);
    assert_eq!(set.as_slice().len(), 3);
}

#[test]
fn conflicts_are_symmetric_and_by_kind() {
    let a = mmio(0x1000, 0x2000);
    let b = mmio(0x1800, 0x2800);
    assert!(a.overlaps(&b));
    assert!(b.overlaps(&a));
    assert!(a.overlaps(&a));
    assert!(!a.overlaps(&mmio(0x2000, 0x3000)));
    assert!(irq(3).overlaps(&irq(3)));
    assert!(!irq(3).overlaps(&irq(4)));
    assert!(!a.overlaps(&irq(3)));
    assert!(!Resource::Msi { vectors: 1 }.overlaps(&Resource::Msi { vectors: 1 }));
    let placed = |start, end| Resource::PciBar {
        bar: 0,
        addr: Some(GuestPhysAddrRange::new(
            GuestPhysAddr(start),
            GuestPhysAddr(end),
        )),
        size: 0x100,
        prefetchable: false,
    };
    assert!(placed(0, 0x100).overlaps(&placed(0x80, 0x180)));
    assert!(!placed(0, 0x100).overlaps(&Resource::PciBar {
        bar: 0,
        addr: None,
        size: 0x100,
        prefetchable: false,
    }));
    assert_eq!(a.bus_kind(), Some(BusKind::Mmio));
    assert_eq!(irq(1).bus_kind(), None);
}

#[test]
fn registry_refuses_conflicts() {
    let mut registry = DeviceRegistry::new();
    let one = |resource| ResourceSet::new().with(resource);
    let none = DeviceCapabilities::none();
    assert_eq!(
        registry.register_device("a", one(mmio(0x1000, 0x2000)), none),
        Ok(DeviceId(1))
    );
    assert_eq!(
        registry.register_device("b", one(mmio(0x1000, 0x1800)), none),
        Err(AxError::AddrInUse)
    );
    assert_eq!(
        registry.register_device("c", one(mmio(0x1000, 0x1000)), none),
        Err(AxError::InvalidInput)
    );
    assert_eq!(
        registry.register_device("d", one(irq(3)).with(irq(3)), none),
        Err(AxError::AddrInUse)
    );
    assert_eq!(
        registry.register_device("e", one(irq(3)).with(irq(4)), none),
        Ok(DeviceId(2))
    );
    let id = registry.allocate_id();
    assert_eq!(id, DeviceId(3));
    let capable = DeviceCapabilities {
        reset: true,
        ..DeviceCapabilities::default()
    };
    let device = RegisteredDevice::new(id, "f", one(irq(5)), capable);
    assert_eq!(registry.register(device), Ok(id));
    assert_eq!(registry.devices().len(), 3);
    assert_eq!(registry.devices()[2].device_id(), DeviceId::new(3));
    assert_eq!(registry.devices()[2].name(), "f");
    assert!(registry.devices()[2].capabilities().reset);
    assert_eq!(registry.devices()[2].device_id().as_u64(), 3);
}

#[test]
fn registry_respects_the_vector_limit() {
    let mut registry = DeviceRegistry::with_msi_vector_limit(4);
    let msi = |vectors| ResourceSet::new().with(Resource::Msi { vectors });
    let none = DeviceCapabilities::none();
    assert_eq!(registry.register_device("a", msi(3), none), Ok(DeviceId(1)));
    assert_eq!(
        registry.register_device("b", msi(2), none),
        Err(AxError::NoMemory)
    );
    assert_eq!(registry.register_device("c", msi(1), none), Ok(DeviceId(2)));
    assert_eq!(
        DeviceRegistry::default().register_device("a", msi(3), none),
        Ok(DeviceId(0))
    );
}
