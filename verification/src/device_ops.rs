//! Operations that emulated devices implement, and what a bus does with them.

use crate::bus::{BusAccess, BusAddress, BusOperation, BusResponse};
use crate::error::{AxError, AxResult};
use crate::range::{DeviceAddrRange, GuestPhysAddrRange, PortRange, SysRegAddrRange};
use crate::types::{AccessWidth, EmulatedDeviceType};
use crate::shared::Shared;
use vstd::prelude::*;

verus! {

/// A device that answers accesses to one address range.
///
/// The range and the type are fixed for the life of the device. The outcome
/// functions are the implementor's own: they name what an access may return,
/// which is anything unless the implementor says more.
pub trait BaseDeviceOps<R: DeviceAddrRange>: Send + Sync {
    /// The range that the device answers.
    open spec fn spec_address_range(&self) -> R {
        arbitrary()
    }

    /// The type of the device.
    open spec fn spec_emu_type(&self) -> EmulatedDeviceType {
        arbitrary()
    }

    /// Whether a read of `addr` may end with `r`.
    open spec fn read_outcome(&self, addr: R::Addr, width: AccessWidth, r: AxResult<usize>) -> bool {
        true
    }

    /// Whether a write of `value` to `addr` may end with `r`.
    open spec fn write_outcome(
        &self,
        addr: R::Addr,
        width: AccessWidth,
        value: usize,
        r: AxResult<()>,
    ) -> bool {
        true
    }

    /// Returns the range that the device answers.
    fn address_range(&self) -> (r: R)
        ensures
            r == self.spec_address_range(),
    ;

    /// Returns the type of the device.
    fn emu_type(&self) -> (r: EmulatedDeviceType)
        ensures
            r == self.spec_emu_type(),
    ;

    /// Reads from the device.
    fn handle_read(&self, addr: R::Addr, width: AccessWidth) -> (r: AxResult<usize>)
        ensures
            self.read_outcome(addr, width, r),
    ;

    /// Writes to the device.
    fn handle_write(&self, addr: R::Addr, width: AccessWidth, value: usize) -> (r: AxResult<()>)
        ensures
            self.write_outcome(addr, width, value, r),
    ;
}

/// A device that has to be polled from time to time.
pub trait PollableDeviceOps: Send + Sync {
    /// Whether a poll at `now_ns` may end with `r`.
    open spec fn poll_outcome(&self, now_ns: u64, r: AxResult<()>) -> bool {
        true
    }

    /// Polls the device at the given monotonic time.
    fn poll(&self, now_ns: u64) -> (r: AxResult<()>)
        ensures
            self.poll_outcome(now_ns, r),
    ;
}

/// A device reachable over the MMIO bus.
pub type MmioDevice = Shared<dyn BaseDeviceOps<GuestPhysAddrRange>>;

/// A device reachable over the port I/O bus.
pub type PortDevice = Shared<dyn BaseDeviceOps<PortRange>>;

/// A device reachable over the system register bus.
pub type SysRegDevice = Shared<dyn BaseDeviceOps<SysRegAddrRange>>;

/// Whether the device at `i` is the first one that answers `addr`.
pub open spec fn owner_at<R: DeviceAddrRange>(
    devices: Seq<Shared<dyn BaseDeviceOps<R>>>,
    addr: R::Addr,
    i: int,
) -> bool {
    &&& 0 <= i < devices.len()
    &&& devices[i].obj().spec_address_range().holds(addr)
    &&& forall|j: int|
        0 <= j < i ==> !(#[trigger] devices[j]).obj().spec_address_range().holds(addr)
}

/// Whether no device answers `addr`.
pub open spec fn unowned<R: DeviceAddrRange>(
    devices: Seq<Shared<dyn BaseDeviceOps<R>>>,
    addr: R::Addr,
) -> bool {
    forall|j: int|
        0 <= j < devices.len() ==> !(#[trigger] devices[j]).obj().spec_address_range().holds(addr)
}

/// Whether a read of `addr` over the bus may end with `r`: its owner answers,
/// and without an owner the address is not found.
pub open spec fn read_through<R: DeviceAddrRange>(
    devices: Seq<Shared<dyn BaseDeviceOps<R>>>,
    addr: R::Addr,
    width: AccessWidth,
    r: AxResult<usize>,
) -> bool {
    ||| unowned(devices, addr) && r == Err::<usize, AxError>(AxError::NotFound)
    ||| exists|i: int|
        #[trigger] owner_at(devices, addr, i) && devices[i].obj().read_outcome(addr, width, r)
}

/// Whether a write to `addr` over the bus may end with `r`.
pub open spec fn write_through<R: DeviceAddrRange>(
    devices: Seq<Shared<dyn BaseDeviceOps<R>>>,
    addr: R::Addr,
    width: AccessWidth,
    value: usize,
    r: AxResult<()>,
) -> bool {
    ||| unowned(devices, addr) && r == Err::<(), AxError>(AxError::NotFound)
    ||| exists|i: int|
        #[trigger] owner_at(devices, addr, i) && devices[i].obj().write_outcome(addr, width, value, r)
}

/// The answer to a bus read whose device returned `r`.
pub open spec fn read_response(r: AxResult<usize>) -> AxResult<BusResponse> {
    match r {
        Ok(value) => Ok(BusResponse::Read { value }),
        Err(error) => Err(error),
    }
}

/// The answer to a bus write whose device returned `r`.
pub open spec fn write_response(r: AxResult<()>) -> AxResult<BusResponse> {
    match r {
        Ok(_) => Ok(BusResponse::WriteComplete),
        Err(error) => Err(error),
    }
}

/// Whether an access over three buses may end with `r`.
pub open spec fn access_outcome(
    mmio: Seq<MmioDevice>,
    port: Seq<PortDevice>,
    sysreg: Seq<SysRegDevice>,
    access: BusAccess,
    r: AxResult<BusResponse>,
) -> bool {
    match (access.address, access.operation) {
        (BusAddress::Mmio(addr), BusOperation::Read) => exists|d: AxResult<usize>|
            #[trigger] read_through(mmio, addr, access.width, d) && r == read_response(d),
        (BusAddress::Mmio(addr), BusOperation::Write { value }) => exists|d: AxResult<()>|
            #[trigger] write_through(mmio, addr, access.width, value, d) && r == write_response(d),
        (BusAddress::Port(addr), BusOperation::Read) => exists|d: AxResult<usize>|
            #[trigger] read_through(port, addr, access.width, d) && r == read_response(d),
        (BusAddress::Port(addr), BusOperation::Write { value }) => exists|d: AxResult<()>|
            #[trigger] write_through(port, addr, access.width, value, d) && r == write_response(d),
        (BusAddress::SysReg(addr), BusOperation::Read) => exists|d: AxResult<usize>|
            #[trigger] read_through(sysreg, addr, access.width, d) && r == read_response(d),
        (BusAddress::SysReg(addr), BusOperation::Write { value }) => exists|d: AxResult<()>|
            #[trigger] write_through(sysreg, addr, access.width, value, d) && r
                == write_response(d),
        (BusAddress::PciConfig { .. }, _) => r == Err::<BusResponse, AxError>(
            AxError::Unsupported,
        ),
    }
}

/// Whether the devices can share a bus: no range is void and no two collide.
pub open spec fn separate<R: DeviceAddrRange>(devices: Seq<Shared<dyn BaseDeviceOps<R>>>) -> bool {
    &&& forall|i: int|
        0 <= i < devices.len() ==> !(#[trigger] devices[i]).obj().spec_address_range().is_void()
    &&& forall|i: int, j: int|
        0 <= i < j < devices.len() ==> !(#[trigger] devices[j]).obj().spec_address_range().meets(
            (#[trigger] devices[i]).obj().spec_address_range(),
        )
}

/// Separate devices stay separate when one is added that collides with none.
pub proof fn lemma_separate_extended<R: DeviceAddrRange>(
    before: Seq<Shared<dyn BaseDeviceOps<R>>>,
    after: Seq<Shared<dyn BaseDeviceOps<R>>>,
)
    requires
        separate(before),
        after.len() == before.len() + 1,
        after.drop_last() == before,
        !after.last().obj().spec_address_range().is_void(),
        forall|i: int|
            0 <= i < before.len() ==> !after.last().obj().spec_address_range().meets(
                (#[trigger] before[i]).obj().spec_address_range(),
            ),
    ensures
        separate(after),
{
    assert forall|i: int| 0 <= i < after.len() implies !(
    #[trigger] after[i]).obj().spec_address_range().is_void() by {
        if i < before.len() {
            assert(after[i] == before[i]);
        }
    }
    assert forall|i: int, j: int| 0 <= i < j < after.len() implies !(
    #[trigger] after[j]).obj().spec_address_range().meets(
        (#[trigger] after[i]).obj().spec_address_range(),
    ) by {
        assert(after[i] == before[i]);
        if j < before.len() {
            assert(after[j] == before[j]);
        }
    }
}

/// On a bus whose devices are separate an address has one owner at most.
pub proof fn law_owner_is_unique<R: DeviceAddrRange>(
    devices: Seq<Shared<dyn BaseDeviceOps<R>>>,
    addr: R::Addr,
    i: int,
    j: int,
)
    requires
        separate(devices),
        0 <= i < devices.len(),
        0 <= j < devices.len(),
        devices[i].obj().spec_address_range().holds(addr),
        devices[j].obj().spec_address_range().holds(addr),
    ensures
        i == j,
{
    let a = devices[i].obj().spec_address_range();
    let b = devices[j].obj().spec_address_range();
    if i < j {
        b.lemma_common_address_meets(a, addr);
    }
    if j < i {
        a.lemma_common_address_meets(b, addr);
    }
}

/// A read always gets an answer of the read kind, a write one of the write
/// kind: the answer's kind never contradicts the request.
pub proof fn law_response_kind_matches(
    mmio: Seq<MmioDevice>,
    port: Seq<PortDevice>,
    sysreg: Seq<SysRegDevice>,
    access: BusAccess,
    r: AxResult<BusResponse>,
)
    requires
        access_outcome(mmio, port, sysreg, access, r),
    ensures
        access.operation is Read && r is Ok ==> r->Ok_0 is Read,
        access.operation is Write && r is Ok ==> r->Ok_0 is WriteComplete,
{
}

/// On a bus whose devices are separate, an access is answered by the one device
/// whose range holds the address, and is not found where there is none.
pub proof fn law_owner_answers<R: DeviceAddrRange>(
    devices: Seq<Shared<dyn BaseDeviceOps<R>>>,
    addr: R::Addr,
    width: AccessWidth,
    value: usize,
    read: AxResult<usize>,
    written: AxResult<()>,
    i: int,
)
    requires
        separate(devices),
        read_through(devices, addr, width, read),
        write_through(devices, addr, width, value, written),
    ensures
        0 <= i < devices.len() && devices[i].obj().spec_address_range().holds(addr) ==> {
            &&& devices[i].obj().read_outcome(addr, width, read)
            &&& devices[i].obj().write_outcome(addr, width, value, written)
        },
        (forall|j: int|
            0 <= j < devices.len() ==> !(#[trigger] devices[j]).obj().spec_address_range().holds(
                addr,
            )) ==> {
            &&& read == Err::<usize, AxError>(AxError::NotFound)
            &&& written == Err::<(), AxError>(AxError::NotFound)
        },
{
    if 0 <= i < devices.len() && devices[i].obj().spec_address_range().holds(addr) {
        assert(!unowned(devices, addr));
        let k = choose|k: int|
            #[trigger] owner_at(devices, addr, k) && devices[k].obj().read_outcome(addr, width, read);
        law_owner_is_unique(devices, addr, i, k);
        let m = choose|m: int|
            #[trigger] owner_at(devices, addr, m) && devices[m].obj().write_outcome(
                addr,
                width,
                value,
                written,
            );
        law_owner_is_unique(devices, addr, i, m);
    }
}

/// An access goes to the bus that its address names, keeps its width and its
/// value, and returns what the device answered: the value of a read, the
/// completion of a write, or the device's error.
pub proof fn law_access_goes_to_its_bus(
    mmio: Seq<MmioDevice>,
    port: Seq<PortDevice>,
    sysreg: Seq<SysRegDevice>,
    access: BusAccess,
    r: AxResult<BusResponse>,
)
    requires
        access_outcome(mmio, port, sysreg, access, r),
    ensures
        access.operation is Read ==> exists|d: AxResult<usize>|
            {
                &&& match access.address {
                    BusAddress::Mmio(addr) => read_through(mmio, addr, access.width, d),
                    BusAddress::Port(addr) => read_through(port, addr, access.width, d),
                    BusAddress::SysReg(addr) => read_through(sysreg, addr, access.width, d),
                    BusAddress::PciConfig { .. } => d == Err::<usize, AxError>(
                        AxError::Unsupported,
                    ),
                }
                &&& #[trigger] returns_value(d, r)
            },
        access.operation is Write ==> exists|d: AxResult<()>|
            {
                &&& match access.address {
                    BusAddress::Mmio(addr) => write_through(
                        mmio,
                        addr,
                        access.width,
                        access.operation->value,
                        d,
                    ),
                    BusAddress::Port(addr) => write_through(
                        port,
                        addr,
                        access.width,
                        access.operation->value,
                        d,
                    ),
                    BusAddress::SysReg(addr) => write_through(
                        sysreg,
                        addr,
                        access.width,
                        access.operation->value,
                        d,
                    ),
                    BusAddress::PciConfig { .. } => d == Err::<(), AxError>(AxError::Unsupported),
                }
                &&& #[trigger] returns_completion(d, r)
            },
{
    match (access.address, access.operation) {
        (BusAddress::Mmio(addr), BusOperation::Read) => {
            let d = choose|d: AxResult<usize>|
                #[trigger] read_through(mmio, addr, access.width, d) && r == read_response(d);
            assert(returns_value(d, r));
        },
        (BusAddress::Port(addr), BusOperation::Read) => {
            let d = choose|d: AxResult<usize>|
                #[trigger] read_through(port, addr, access.width, d) && r == read_response(d);
            assert(returns_value(d, r));
        },
        (BusAddress::SysReg(addr), BusOperation::Read) => {
            let d = choose|d: AxResult<usize>|
                #[trigger] read_through(sysreg, addr, access.width, d) && r == read_response(d);
            assert(returns_value(d, r));
        },
        (BusAddress::PciConfig { .. }, BusOperation::Read) => {
            let d: AxResult<usize> = Err(AxError::Unsupported);
            assert(returns_value(d, r));
        },
        (BusAddress::Mmio(addr), BusOperation::Write { value }) => {
            let d = choose|d: AxResult<()>|
                #[trigger] write_through(mmio, addr, access.width, value, d) && r
                    == write_response(d);
            assert(returns_completion(d, r));
        },
        (BusAddress::Port(addr), BusOperation::Write { value }) => {
            let d = choose|d: AxResult<()>|
                #[trigger] write_through(port, addr, access.width, value, d) && r
                    == write_response(d);
            assert(returns_completion(d, r));
        },
        (BusAddress::SysReg(addr), BusOperation::Write { value }) => {
            let d = choose|d: AxResult<()>|
                #[trigger] write_through(sysreg, addr, access.width, value, d) && r
                    == write_response(d);
            assert(returns_completion(d, r));
        },
        (BusAddress::PciConfig { .. }, BusOperation::Write { value }) => {
            let d: AxResult<()> = Err(AxError::Unsupported);
            assert(returns_completion(d, r));
        },
    }
}

/// Whether a bus read returns what the device answered: its value or its error.
pub open spec fn returns_value(d: AxResult<usize>, r: AxResult<BusResponse>) -> bool {
    &&& d is Ok ==> r == Ok::<BusResponse, AxError>(BusResponse::Read { value: d->Ok_0 })
    &&& d is Err ==> r == Err::<BusResponse, AxError>(d->Err_0)
}

/// Whether a bus write returns what the device answered: completion or its error.
pub open spec fn returns_completion(d: AxResult<()>, r: AxResult<BusResponse>) -> bool {
    &&& d is Ok ==> r == Ok::<BusResponse, AxError>(BusResponse::WriteComplete)
    &&& d is Err ==> r == Err::<BusResponse, AxError>(d->Err_0)
}

} // verus!
