//! Unified bus router over a device registry.

use crate::access;
use crate::access::{AccessRecord, Attached, DeviceBuses, HandledAccess};
use crate::bus::{BusAccess, BusAddress, BusOperation, BusResponse};
use crate::device_ops;
use crate::device_ops::{BaseDeviceOps, MmioDevice, PortDevice, SysRegDevice};
use crate::error::{AxError, AxResult};
use crate::range::{DeviceAddrRange, GuestPhysAddrRange, PortRange, SysRegAddrRange};
use crate::registry;
use crate::registry::{DeviceRegistry, RegisteredDevice};
use crate::resource::{DeviceCapabilities, DeviceDescriptor, DeviceId, Resource, ResourceSet};
use crate::shared::Shared;
use vstd::prelude::*;

verus! {

/// Unified bus router for device handlers.
pub struct BusRouter {
    registry: DeviceRegistry,
    mmio: Vec<(DeviceId, Attached<GuestPhysAddrRange>)>,
    port: Vec<(DeviceId, Attached<PortRange>)>,
    sysreg: Vec<(DeviceId, Attached<SysRegAddrRange>)>,
}

/// The devices of a list with their identifiers.
pub open spec fn devices_of<R: DeviceAddrRange + 'static>(list: Seq<(DeviceId, Attached<R>)>) -> Seq<
    (DeviceId, Shared<dyn BaseDeviceOps<R>>),
> {
    Seq::new(list.len(), |i: int| (list[i].0, list[i].1.spec_device()))
}

/// The handlers of a list, without their identifiers.
pub open spec fn handlers<R: DeviceAddrRange>(
    list: Seq<(DeviceId, Shared<dyn BaseDeviceOps<R>>)>,
) -> Seq<Shared<dyn BaseDeviceOps<R>>> {
    Seq::new(list.len(), |i: int| list[i].1)
}

/// Returns the first handler of the list that answers `addr`.
fn find_handler<R: DeviceAddrRange + 'static>(
    list: &Vec<(DeviceId, Attached<R>)>,
    addr: R::Addr,
) -> (r: Option<usize>)
    ensures
        match r {
            Some(i) => device_ops::owner_at(handlers(devices_of(list@)), addr, i as int),
            None => device_ops::unowned(handlers(devices_of(list@)), addr),
        },
{
    let mut i: usize = 0;
    while i < list.len()
        invariant
            i <= list@.len(),
            forall|j: int|
                0 <= j < i ==> !(#[trigger] handlers(
                    devices_of(list@),
                )[j]).obj().spec_address_range().holds(addr),
        decreases list@.len() - i,
    {
        if list[i].1.address_range().contains(addr) {
            return Some(i);
        }
        i = i + 1;
    }
    None
}

fn read_handler<R: DeviceAddrRange + 'static>(
    list: &Vec<(DeviceId, Attached<R>)>,
    access: BusAccess,
    addr: R::Addr,
    record: &mut AccessRecord,
) -> (r: AxResult<BusResponse>)
    ensures
        exists|d: AxResult<usize>|
            #[trigger] device_ops::read_through(
                handlers(devices_of(list@)),
                addr,
                access.width,
                d,
            ) && r == device_ops::read_response(d),
        access::handled_once(
            handlers(devices_of(list@)),
            addr,
            (BusAccess {
                address: R::on_bus(addr),
                width: access.width,
                operation: BusOperation::Read,
            }),
            old(record)@,
            final(record)@,
            r,
        ),
{
    let ghost devices = handlers(devices_of(list@));
    match find_handler(list, addr) {
        Some(i) => {
            let answer = list[i].1.read(i, addr, access.width, record);
            proof {
                assert(device_ops::owner_at(devices, addr, i as int));
                assert(device_ops::read_through(devices, addr, access.width, answer));
            }
            match answer {
                Ok(value) => Ok(BusResponse::Read { value }),
                Err(error) => Err(error),
            }
        },
        None => {
            let ghost answer: AxResult<usize> = Err(AxError::NotFound);
            assert(device_ops::read_through(devices, addr, access.width, answer));
            Err(AxError::NotFound)
        },
    }
}

fn write_handler<R: DeviceAddrRange + 'static>(
    list: &Vec<(DeviceId, Attached<R>)>,
    access: BusAccess,
    addr: R::Addr,
    value: usize,
    record: &mut AccessRecord,
) -> (r: AxResult<BusResponse>)
    ensures
        exists|d: AxResult<()>|
            #[trigger] device_ops::write_through(
                handlers(devices_of(list@)),
                addr,
                access.width,
                value,
                d,
            ) && r == device_ops::write_response(d),
        access::handled_once(
            handlers(devices_of(list@)),
            addr,
            (BusAccess {
                address: R::on_bus(addr),
                width: access.width,
                operation: BusOperation::Write { value },
            }),
            old(record)@,
            final(record)@,
            r,
        ),
{
    let ghost devices = handlers(devices_of(list@));
    match find_handler(list, addr) {
        Some(i) => {
            let answer = list[i].1.write(i, addr, access.width, value, record);
            proof {
                assert(device_ops::owner_at(devices, addr, i as int));
                assert(device_ops::write_through(devices, addr, access.width, value, answer));
            }
            match answer {
                Ok(()) => Ok(BusResponse::WriteComplete),
                Err(error) => Err(error),
            }
        },
        None => {
            let ghost answer: AxResult<()> = Err(AxError::NotFound);
            assert(device_ops::write_through(devices, addr, access.width, value, answer));
            Err(AxError::NotFound)
        },
    }
}

impl BusRouter {
    /// The registry that the router consults.
    pub closed spec fn spec_registry(&self) -> DeviceRegistry {
        self.registry
    }

    /// The MMIO devices with their identifiers, oldest first.
    pub closed spec fn mmio_list(&self) -> Seq<(DeviceId, MmioDevice)> {
        devices_of(self.mmio@)
    }

    /// The port devices with their identifiers, oldest first.
    pub closed spec fn port_list(&self) -> Seq<(DeviceId, PortDevice)> {
        devices_of(self.port@)
    }

    /// The system register devices with their identifiers, oldest first.
    pub closed spec fn sysreg_list(&self) -> Seq<(DeviceId, SysRegDevice)> {
        devices_of(self.sysreg@)
    }

    /// The registry is free of conflicts and has no vector limit, every routed
    /// device claims its range there, and the devices of a bus are separate.
    pub open spec fn wf(&self) -> bool {
        &&& self.spec_registry().wf()
        &&& self.spec_registry().spec_limit() is None
        &&& device_ops::separate(handlers(self.mmio_list()))
        &&& device_ops::separate(handlers(self.port_list()))
        &&& device_ops::separate(handlers(self.sysreg_list()))
        &&& forall|i: int|
            0 <= i < self.mmio_list().len() ==> self.spec_registry().held().contains(
                Resource::Mmio((#[trigger] self.mmio_list()[i]).1.obj().spec_address_range()),
            )
        &&& forall|i: int|
            0 <= i < self.port_list().len() ==> self.spec_registry().held().contains(
                Resource::Port((#[trigger] self.port_list()[i]).1.obj().spec_address_range()),
            )
        &&& forall|i: int|
            0 <= i < self.sysreg_list().len() ==> self.spec_registry().held().contains(
                Resource::SysReg((#[trigger] self.sysreg_list()[i]).1.obj().spec_address_range()),
            )
    }

    /// What becomes of the registry when a device named `name` asks for
    /// `resource`: the identifier is used up in any case, and the device is
    /// entered if it is admitted.
    pub open spec fn registered(
        before: DeviceRegistry,
        after: DeviceRegistry,
        name: Seq<char>,
        resource: Resource,
        r: AxResult<DeviceId>,
    ) -> bool {
        &&& after.spec_next_id() == registry::next_after(before.spec_next_id())
        &&& after.spec_limit() == before.spec_limit()
        &&& match registry::admission(before.held(), before.spec_limit(), seq![resource]) {
            Ok(_) => {
                let id = DeviceId(before.spec_next_id());
                &&& r == Ok::<DeviceId, AxError>(id)
                &&& after.spec_devices().len() == before.spec_devices().len() + 1
                &&& after.spec_devices().drop_last() == before.spec_devices()
                &&& after.spec_devices().last().spec_device_id() == id
                &&& after.spec_devices().last().spec_name() == name
                &&& after.spec_devices().last().spec_resources() == seq![resource]
                &&& after.spec_devices().last().spec_capabilities()
                    == DeviceCapabilities::spec_none()
            },
            Err(error) => {
                &&& r == Err::<DeviceId, AxError>(error)
                &&& after.spec_devices() == before.spec_devices()
            },
        }
    }

    fn enter(registry: &mut DeviceRegistry, name: &'static str, resource: Resource) -> (r: AxResult<
        DeviceId,
    >)
        requires
            old(registry).spec_limit() is None,
            old(registry).wf(),
        ensures
            Self::registered(*old(registry), *final(registry), name@, resource, r),
            final(registry).wf(),
            forall|claim: Resource|
                old(registry).held().contains(claim) ==> #[trigger] final(registry).held().contains(
                    claim,
                ),
            r is Ok ==> final(registry).held().contains(resource),
    {
        let id = registry.allocate_id();
        let descriptor = RegisteredDevice::new(
            id,
            name,
            ResourceSet::new().with(resource),
            DeviceCapabilities::default(),
        );
        proof {
            assert(descriptor.spec_resources() =~= seq![resource]);
        }
        let ghost held = registry.held();
        let ghost devices = registry.spec_devices();
        let r = registry.register(descriptor);
        proof {
            if r is Ok {
                assert(registry.spec_devices().drop_last() =~= devices);
                assert(registry.held() == held + seq![resource]);
                assert(registry.held()[held.len() as int] == resource);
                assert forall|claim: Resource| held.contains(claim) implies #[trigger]
                    registry.held().contains(claim) by {
                    let k = choose|k: int| 0 <= k < held.len() && held[k] == claim;
                    assert(registry.held()[k] == claim);
                }
            }
        }
        r
    }

    /// Creates an empty bus router.
    pub fn new() -> (r: Self)
        ensures
            r.wf(),
            r.spec_registry().spec_next_id() == 1,
            r.spec_registry().spec_devices() == Seq::<RegisteredDevice>::empty(),
            r.mmio_list().len() == 0,
            r.port_list().len() == 0,
            r.sysreg_list().len() == 0,
    {
        BusRouter {
            registry: DeviceRegistry::new(),
            mmio: Vec::new(),
            port: Vec::new(),
            sysreg: Vec::new(),
        }
    }

    /// Returns the device registry.
    pub fn registry(&self) -> (r: &DeviceRegistry)
        ensures
            *r == self.spec_registry(),
    {
        &self.registry
    }

    /// Registers an MMIO device.
    pub fn register_mmio(&mut self, name: &'static str, device: MmioDevice) -> (r: AxResult<
        DeviceId,
    >)
        requires
            old(self).wf(),
        ensures
            final(self).wf(),
            Self::registered(
                old(self).spec_registry(),
                final(self).spec_registry(),
                name@,
                Resource::Mmio(device.obj().spec_address_range()),
                r,
            ),
            final(self).mmio_list() == (match r {
                Ok(id) => old(self).mmio_list().push((id, device)),
                Err(_) => old(self).mmio_list(),
            }),
            final(self).port_list() == old(self).port_list(),
            final(self).sysreg_list() == old(self).sysreg_list(),
    {
        let range = device.get().address_range();
        let ghost held = self.registry.held();
        let r = Self::enter(&mut self.registry, name, Resource::Mmio(range));
        if let Ok(id) = r {
            proof {
                let wanted = seq![Resource::Mmio(range)];
                assert(wanted[0] == Resource::Mmio(range));
                assert(!wanted[0].is_malformed());
                assert forall|i: int| 0 <= i < self.mmio@.len() implies !range.meets(
                    (#[trigger] handlers(devices_of(self.mmio@))[i]).obj().spec_address_range(),
                ) by {
                    let listed = old(self).mmio_list()[i].1;
                    let claim = Resource::Mmio(listed.obj().spec_address_range());
                    let k = choose|k: int| 0 <= k < held.len() && held[k] == claim;
                    assert(!wanted[0].conflicts(held[k]));
                }
            }
            let ghost before = handlers(devices_of(self.mmio@));
            let ghost listed = self.mmio@;
            self.mmio.push((id, Attached::new(device)));
            proof {
                assert(devices_of(self.mmio@) =~= devices_of(listed).push((id, device)));
                assert(handlers(devices_of(self.mmio@)).drop_last() =~= before);
                device_ops::lemma_separate_extended(before, handlers(devices_of(self.mmio@)));
            }
        }
        r
    }

    /// Registers a port I/O device.
    pub fn register_port(&mut self, name: &'static str, device: PortDevice) -> (r: AxResult<
        DeviceId,
    >)
        requires
            old(self).wf(),
        ensures
            final(self).wf(),
            Self::registered(
                old(self).spec_registry(),
                final(self).spec_registry(),
                name@,
                Resource::Port(device.obj().spec_address_range()),
                r,
            ),
            final(self).port_list() == (match r {
                Ok(id) => old(self).port_list().push((id, device)),
                Err(_) => old(self).port_list(),
            }),
            final(self).mmio_list() == old(self).mmio_list(),
            final(self).sysreg_list() == old(self).sysreg_list(),
    {
        let range = device.get().address_range();
        let ghost held = self.registry.held();
        let r = Self::enter(&mut self.registry, name, Resource::Port(range));
        if let Ok(id) = r {
            proof {
                let wanted = seq![Resource::Port(range)];
                assert(wanted[0] == Resource::Port(range));
                assert(!wanted[0].is_malformed());
                assert forall|i: int| 0 <= i < self.port@.len() implies !range.meets(
                    (#[trigger] handlers(devices_of(self.port@))[i]).obj().spec_address_range(),
                ) by {
                    let listed = old(self).port_list()[i].1;
                    let claim = Resource::Port(listed.obj().spec_address_range());
                    let k = choose|k: int| 0 <= k < held.len() && held[k] == claim;
                    assert(!wanted[0].conflicts(held[k]));
                }
            }
            let ghost before = handlers(devices_of(self.port@));
            let ghost listed = self.port@;
            self.port.push((id, Attached::new(device)));
            proof {
                assert(devices_of(self.port@) =~= devices_of(listed).push((id, device)));
                assert(handlers(devices_of(self.port@)).drop_last() =~= before);
                device_ops::lemma_separate_extended(before, handlers(devices_of(self.port@)));
            }
        }
        r
    }

    /// Registers a system register device.
    pub fn register_sysreg(&mut self, name: &'static str, device: SysRegDevice) -> (r: AxResult<
        DeviceId,
    >)
        requires
            old(self).wf(),
        ensures
            final(self).wf(),
            Self::registered(
                old(self).spec_registry(),
                final(self).spec_registry(),
                name@,
                Resource::SysReg(device.obj().spec_address_range()),
                r,
            ),
            final(self).sysreg_list() == (match r {
                Ok(id) => old(self).sysreg_list().push((id, device)),
                Err(_) => old(self).sysreg_list(),
            }),
            final(self).mmio_list() == old(self).mmio_list(),
            final(self).port_list() == old(self).port_list(),
    {
        let range = device.get().address_range();
        let ghost held = self.registry.held();
        let r = Self::enter(&mut self.registry, name, Resource::SysReg(range));
        if let Ok(id) = r {
            proof {
                let wanted = seq![Resource::SysReg(range)];
                assert(wanted[0] == Resource::SysReg(range));
                assert(!wanted[0].is_malformed());
                assert forall|i: int| 0 <= i < self.sysreg@.len() implies !range.meets(
                    (#[trigger] handlers(devices_of(self.sysreg@))[i]).obj().spec_address_range(),
                ) by {
                    let listed = old(self).sysreg_list()[i].1;
                    let claim = Resource::SysReg(listed.obj().spec_address_range());
                    let k = choose|k: int| 0 <= k < held.len() && held[k] == claim;
                    assert(!wanted[0].conflicts(held[k]));
                }
            }
            let ghost before = handlers(devices_of(self.sysreg@));
            let ghost listed = self.sysreg@;
            self.sysreg.push((id, Attached::new(device)));
            proof {
                assert(devices_of(self.sysreg@) =~= devices_of(listed).push((id, device)));
                assert(handlers(devices_of(self.sysreg@)).drop_last() =~= before);
                device_ops::lemma_separate_extended(before, handlers(devices_of(self.sysreg@)));
            }
        }
        r
    }

    /// Dispatches a unified bus access.
    pub fn dispatch(&self, access: BusAccess) -> (r: AxResult<BusResponse>)
        ensures
            device_ops::access_outcome(
                handlers(self.mmio_list()),
                handlers(self.port_list()),
                handlers(self.sysreg_list()),
                access,
                r,
            ),
            exists|after: Seq<HandledAccess>|
                #[trigger] access::recorded(
                    handlers(self.mmio_list()),
                    handlers(self.port_list()),
                    handlers(self.sysreg_list()),
                    access,
                    Seq::empty(),
                    after,
                    r,
                ),
    {
        access::handle(self, access)
    }
}

impl Default for BusRouter {
    fn default() -> (r: Self)
        ensures
            r.wf(),
            r.spec_registry().spec_next_id() == 0,
            r.spec_registry().spec_devices() == Seq::<RegisteredDevice>::empty(),
            r.mmio_list().len() == 0,
            r.port_list().len() == 0,
            r.sysreg_list().len() == 0,
    {
        BusRouter {
            registry: DeviceRegistry::default(),
            mmio: Vec::new(),
            port: Vec::new(),
            sysreg: Vec::new(),
        }
    }
}

impl DeviceBuses for BusRouter {
    closed spec fn on_mmio(&self) -> Seq<MmioDevice> {
        handlers(self.mmio_list())
    }

    closed spec fn on_port(&self) -> Seq<PortDevice> {
        handlers(self.port_list())
    }

    closed spec fn on_sysreg(&self) -> Seq<SysRegDevice> {
        handlers(self.sysreg_list())
    }

    fn handle_recorded(&self, access: BusAccess, record: &mut AccessRecord) -> (r: AxResult<
        BusResponse,
    >)
    {
        match (access.address, access.operation) {
            (BusAddress::Mmio(addr), BusOperation::Read) => {
                read_handler(&self.mmio, access, addr, record)
            },
            (BusAddress::Mmio(addr), BusOperation::Write { value }) => {
                write_handler(&self.mmio, access, addr, value, record)
            },
            (BusAddress::Port(port), BusOperation::Read) => {
                read_handler(&self.port, access, port, record)
            },
            (BusAddress::Port(port), BusOperation::Write { value }) => {
                write_handler(&self.port, access, port, value, record)
            },
            (BusAddress::SysReg(addr), BusOperation::Read) => {
                read_handler(&self.sysreg, access, addr, record)
            },
            (BusAddress::SysReg(addr), BusOperation::Write { value }) => {
                write_handler(&self.sysreg, access, addr, value, record)
            },
            (BusAddress::PciConfig { .. }, _) => Err(AxError::Unsupported),
        }
    }
}

/// A registration with the router uses up one identifier whether it succeeds or
/// not. If the range is refused the registry holds the same devices; otherwise one
/// more, of that name and identifier, with that range and no capabilities.
pub proof fn law_router_registration(
    before: DeviceRegistry,
    after: DeviceRegistry,
    name: Seq<char>,
    resource: Resource,
    r: AxResult<DeviceId>,
)
    requires
        BusRouter::registered(before, after, name, resource, r),
        before.spec_next_id() < u64::MAX,
    ensures
        after.spec_next_id() == before.spec_next_id() + 1,
        after.spec_limit() == before.spec_limit(),
        r is Err ==> after.spec_devices() == before.spec_devices(),
        r is Ok ==> {
            let devices = after.spec_devices();
            &&& r->Ok_0.0 == before.spec_next_id()
            &&& devices.len() == before.spec_devices().len() + 1
            &&& devices.drop_last() == before.spec_devices()
            &&& devices.last().spec_device_id() == r->Ok_0
            &&& devices.last().spec_name() == name
            &&& devices.last().spec_resources().len() == 1
            &&& devices.last().spec_resources()[0] == resource
        },
        r is Ok <==> registry::admission(before.held(), before.spec_limit(), seq![resource]) is Ok,
{
}

} // verus!
