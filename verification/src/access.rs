//! Accesses that devices handle, and the record of them.

use crate::bus::{BusAccess, BusAddress, BusOperation, BusResponse};
use crate::device_ops;
use crate::device_ops::{BaseDeviceOps, MmioDevice, PortDevice, SysRegDevice};
use crate::error::{AxError, AxResult};
use crate::range::DeviceAddrRange;
use crate::shared::Shared;
use crate::types::AccessWidth;
use vstd::prelude::*;

verus! {

/// One access that a device handled.
pub struct HandledAccess {
    /// Position of the device on its bus.
    pub owner: int,
    /// The access, as it reached the device.
    pub access: BusAccess,
    /// What the device answered.
    pub response: AxResult<BusResponse>,
}

/// The accesses that devices handled, oldest first. It exists in proofs only.
pub struct AccessRecord {
    handled: Ghost<Seq<HandledAccess>>,
}

impl View for AccessRecord {
    type V = Seq<HandledAccess>;

    closed spec fn view(&self) -> Seq<HandledAccess> {
        self.handled@
    }
}

impl AccessRecord {
    /// Creates an empty record.
    fn new() -> (r: Self)
        ensures
            r@ == Seq::<HandledAccess>::empty(),
    {
        AccessRecord { handled: Ghost(Seq::empty()) }
    }
}

/// A device on a bus. Its registers are reached through a record only.
#[verifier::reject_recursive_types(R)]
pub struct Attached<R: DeviceAddrRange> {
    device: Shared<dyn BaseDeviceOps<R>>,
}

impl<R: DeviceAddrRange + 'static> Attached<R> {
    /// The device.
    pub closed spec fn spec_device(&self) -> Shared<dyn BaseDeviceOps<R>> {
        self.device
    }

    /// Attaches a device.
    pub fn new(device: Shared<dyn BaseDeviceOps<R>>) -> (r: Self)
        ensures
            r.spec_device() == device,
    {
        Attached { device }
    }

    /// Returns the range that the device answers.
    pub fn address_range(&self) -> (r: R)
        ensures
            r == self.spec_device().obj().spec_address_range(),
    {
        self.device.get().address_range()
    }

    /// Reads from the device, which stands at a position of its bus.
    pub fn read(
        &self,
        position: usize,
        addr: R::Addr,
        width: AccessWidth,
        record: &mut AccessRecord,
    ) -> (r: AxResult<usize>)
        ensures
            self.spec_device().obj().read_outcome(addr, width, r),
            final(record)@ == old(record)@.push(
                HandledAccess {
                    owner: position as int,
                    access: BusAccess {
                        address: R::on_bus(addr),
                        width,
                        operation: BusOperation::Read,
                    },
                    response: device_ops::read_response(r),
                },
            ),
    {
        let r = self.device.get().handle_read(addr, width);
        proof {
            record.handled@ = record.handled@.push(
                HandledAccess {
                    owner: position as int,
                    access: BusAccess {
                        address: R::on_bus(addr),
                        width,
                        operation: BusOperation::Read,
                    },
                    response: device_ops::read_response(r),
                },
            );
        }
        r
    }

    /// Writes to the device, which stands at a position of its bus.
    pub fn write(
        &self,
        position: usize,
        addr: R::Addr,
        width: AccessWidth,
        value: usize,
        record: &mut AccessRecord,
    ) -> (r: AxResult<()>)
        ensures
            self.spec_device().obj().write_outcome(addr, width, value, r),
            final(record)@ == old(record)@.push(
                HandledAccess {
                    owner: position as int,
                    access: BusAccess {
                        address: R::on_bus(addr),
                        width,
                        operation: BusOperation::Write { value },
                    },
                    response: device_ops::write_response(r),
                },
            ),
    {
        let r = self.device.get().handle_write(addr, width, value);
        proof {
            record.handled@ = record.handled@.push(
                HandledAccess {
                    owner: position as int,
                    access: BusAccess {
                        address: R::on_bus(addr),
                        width,
                        operation: BusOperation::Write { value },
                    },
                    response: device_ops::write_response(r),
                },
            );
        }
        r
    }
}

/// What an access to `addr` adds to the record: its owner handles it, once, and
/// without an owner the address is not found and nothing is added.
pub open spec fn handled_once<R: DeviceAddrRange>(
    devices: Seq<Shared<dyn BaseDeviceOps<R>>>,
    addr: R::Addr,
    access: BusAccess,
    before: Seq<HandledAccess>,
    after: Seq<HandledAccess>,
    r: AxResult<BusResponse>,
) -> bool {
    ||| {
        &&& device_ops::unowned(devices, addr)
        &&& after == before
        &&& r == Err::<BusResponse, AxError>(AxError::NotFound)
    }
    ||| exists|i: int|
        {
            &&& #[trigger] device_ops::owner_at(devices, addr, i)
            &&& after == before.push(HandledAccess { owner: i, access, response: r })
        }
}

/// What an access over three buses adds to the record.
pub open spec fn recorded(
    mmio: Seq<MmioDevice>,
    port: Seq<PortDevice>,
    sysreg: Seq<SysRegDevice>,
    access: BusAccess,
    before: Seq<HandledAccess>,
    after: Seq<HandledAccess>,
    r: AxResult<BusResponse>,
) -> bool {
    match access.address {
        BusAddress::Mmio(addr) => handled_once(mmio, addr, access, before, after, r),
        BusAddress::Port(addr) => handled_once(port, addr, access, before, after, r),
        BusAddress::SysReg(addr) => handled_once(sysreg, addr, access, before, after, r),
        BusAddress::PciConfig { .. } => after == before && r == Err::<BusResponse, AxError>(
            AxError::Unsupported,
        ),
    }
}

/// Devices on three buses that handle accesses.
pub(crate) trait DeviceBuses {
    /// The devices on the memory bus.
    spec fn on_mmio(&self) -> Seq<MmioDevice>;

    /// The devices on the port bus.
    spec fn on_port(&self) -> Seq<PortDevice>;

    /// The devices on the system-register bus.
    spec fn on_sysreg(&self) -> Seq<SysRegDevice>;

    /// Handles an access and adds to the record which device handled it.
    fn handle_recorded(&self, access: BusAccess, record: &mut AccessRecord) -> (r: AxResult<
        BusResponse,
    >)
        ensures
            device_ops::access_outcome(
                self.on_mmio(),
                self.on_port(),
                self.on_sysreg(),
                access,
                r,
            ),
            recorded(
                self.on_mmio(),
                self.on_port(),
                self.on_sysreg(),
                access,
                old(record)@,
                final(record)@,
                r,
            ),
    ;
}

/// Handles an access on a record of its own. Records are made nowhere else: what
/// handles the access has only that one to add to.
pub(crate) fn handle<B: DeviceBuses>(buses: &B, access: BusAccess) -> (r: AxResult<BusResponse>)
    ensures
        device_ops::access_outcome(
            buses.on_mmio(),
            buses.on_port(),
            buses.on_sysreg(),
            access,
            r,
        ),
        exists|after: Seq<HandledAccess>|
            #[trigger] recorded(
                buses.on_mmio(),
                buses.on_port(),
                buses.on_sysreg(),
                access,
                Seq::empty(),
                after,
                r,
            ),
{
    let mut record = AccessRecord::new();
    buses.handle_recorded(access, &mut record)
}

/// Whether a device of the bus answers the address.
pub open spec fn is_answered<R: DeviceAddrRange>(
    devices: Seq<Shared<dyn BaseDeviceOps<R>>>,
    addr: R::Addr,
) -> bool {
    exists|i: int|
        0 <= i < devices.len() && (#[trigger] devices[i]).obj().spec_address_range().holds(addr)
}

/// An access reaches the device that owns its address exactly once, with the
/// address, width and operation that were asked for, and reaches no other device:
/// the record grows by that one entry, whose answer is the one that is returned.
/// Where no device answers the address, nothing is reached and it is not found.
pub proof fn law_access_reaches_its_owner_once<R: DeviceAddrRange>(
    devices: Seq<Shared<dyn BaseDeviceOps<R>>>,
    addr: R::Addr,
    access: BusAccess,
    before: Seq<HandledAccess>,
    after: Seq<HandledAccess>,
    r: AxResult<BusResponse>,
)
    requires
        handled_once(devices, addr, access, before, after, r),
    ensures
        is_answered(devices, addr) ==> {
            &&& after.len() == before.len() + 1
            &&& after.drop_last() == before
            &&& after.last().access == access
            &&& after.last().response == r
            &&& 0 <= after.last().owner < devices.len()
            &&& devices[after.last().owner].obj().spec_address_range().holds(addr)
        },
        !is_answered(devices, addr) ==> {
            &&& after == before
            &&& r == Err::<BusResponse, AxError>(AxError::NotFound)
        },
{
    if after.len() > before.len() {
        assert(after.drop_last() =~= before);
    }
}

/// The same over three buses: an access touches the bus that its address names,
/// and configuration space reaches no device.
pub proof fn law_dispatch_reaches_one_device_once(
    mmio: Seq<MmioDevice>,
    port: Seq<PortDevice>,
    sysreg: Seq<SysRegDevice>,
    access: BusAccess,
    before: Seq<HandledAccess>,
    after: Seq<HandledAccess>,
    r: AxResult<BusResponse>,
)
    requires
        recorded(mmio, port, sysreg, access, before, after, r),
    ensures
        ({
            let answered = match access.address {
                BusAddress::Mmio(addr) => is_answered(mmio, addr),
                BusAddress::Port(addr) => is_answered(port, addr),
                BusAddress::SysReg(addr) => is_answered(sysreg, addr),
                BusAddress::PciConfig { .. } => false,
            };
            &&& answered ==> {
                &&& after.len() == before.len() + 1
                &&& after.drop_last() == before
                &&& after.last().access == access
                &&& after.last().response == r
                &&& match access.address {
                    BusAddress::Mmio(addr) => mmio[after.last().owner].obj().spec_address_range().holds(
                        addr,
                    ),
                    BusAddress::Port(addr) => port[after.last().owner].obj().spec_address_range().holds(
                        addr,
                    ),
                    BusAddress::SysReg(addr) => {
                        sysreg[after.last().owner].obj().spec_address_range().holds(addr)
                    },
                    BusAddress::PciConfig { .. } => true,
                }
            }
            &&& !answered ==> after == before
            &&& !answered && !(access.address is PciConfig) ==> r == Err::<BusResponse, AxError>(
                AxError::NotFound,
            )
            &&& access.address is PciConfig ==> r == Err::<BusResponse, AxError>(
                AxError::Unsupported,
            )
        }),
{
    match access.address {
        BusAddress::Mmio(addr) => law_access_reaches_its_owner_once(
            mmio,
            addr,
            access,
            before,
            after,
            r,
        ),
        BusAddress::Port(addr) => law_access_reaches_its_owner_once(
            port,
            addr,
            access,
            before,
            after,
            r,
        ),
        BusAddress::SysReg(addr) => law_access_reaches_its_owner_once(
            sysreg,
            addr,
            access,
            before,
            after,
            r,
        ),
        BusAddress::PciConfig { .. } => {},
    }
}

} // verus!
