//! Device resource and capability descriptors.

use crate::range::{DeviceAddrRange, GuestPhysAddrRange, PortRange, SysRegAddrRange};
use crate::types::{GuestPhysAddr, InterruptTriggerMode, IrqLineId, Port};
use core::ops::Range;
use vstd::prelude::*;

verus! {

/// Number of BARs of a PCI function.
pub const PCI_BAR_COUNT: u8 = 6;

/// Stable identifier assigned to a registered emulated device.
#[derive(Clone, Copy, Debug, PartialEq, Eq, PartialOrd, Ord, Hash, Structural)]
pub struct DeviceId(pub u64);

impl DeviceId {
    /// Creates a new device identifier from a raw value.
    pub fn new(id: u64) -> (r: Self)
        ensures
            r == DeviceId(id),
    {
        DeviceId(id)
    }

    /// Returns the raw identifier value.
    pub fn as_u64(self) -> (r: u64)
        ensures
            r == self.0,
    {
        self.0
    }
}

/// Kind of bus used by a guest access.
#[derive(Clone, Copy, Debug, PartialEq, Eq, Structural)]
pub enum BusKind {
    /// Memory-mapped I/O bus.
    Mmio,
    /// x86-style port I/O bus.
    PortIo,
    /// Architecture system register bus.
    SysReg,
    /// PCI configuration space.
    PciConfig,
}

/// PCI function selector.
#[derive(Clone, Copy, Debug, PartialEq, Eq, Structural)]
pub struct PciFunction {
    /// PCI segment number.
    pub segment: u16,
    /// PCI bus number.
    pub bus: u8,
    /// PCI device number.
    pub device: u8,
    /// PCI function number.
    pub function: u8,
}

/// MSI or MSI-X message payload.
#[derive(Clone, Copy, Debug, PartialEq, Eq, Structural)]
pub struct MsiMessage {
    /// Message address.
    pub address: u64,
    /// Message data.
    pub data: u32,
}

/// Target selected for a routed interrupt.
#[derive(Clone, Copy, Debug, PartialEq, Eq, Structural)]
pub enum IrqTarget {
    /// Bootstrap vCPU.
    Bootstrap,
    /// A single VM-local vCPU.
    Vcpu(usize),
    /// All VM-local vCPUs.
    All,
}

/// One resource claimed by a device.
#[derive(Clone, Copy, Debug, PartialEq, Eq, Structural)]
#[non_exhaustive]
pub enum Resource {
    /// MMIO guest physical address range.
    Mmio(GuestPhysAddrRange),
    /// Port I/O inclusive range.
    Port(PortRange),
    /// System register inclusive range.
    SysReg(SysRegAddrRange),
    /// VM-local IRQ line.
    Irq {
        /// Interrupt line identifier.
        line: IrqLineId,
        /// Required trigger mode.
        trigger: InterruptTriggerMode,
        /// Preferred target.
        target: IrqTarget,
    },
    /// MSI/MSI-X vector allocation request.
    Msi {
        /// Number of vectors requested.
        vectors: usize,
    },
    /// DMA aperture visible to the device.
    Dma {
        /// Optional guest physical aperture.
        aperture: Option<GuestPhysAddrRange>,
    },
    /// PCI BAR requirement.
    PciBar {
        /// BAR index.
        bar: u8,
        /// Assigned guest physical address, if the BAR is already placed.
        addr: Option<GuestPhysAddrRange>,
        /// BAR size in bytes.
        size: usize,
        /// Whether the BAR is prefetchable.
        prefetchable: bool,
    },
}

/// Whether the optional range is present and void.
pub open spec fn is_void_if_present(range: Option<GuestPhysAddrRange>) -> bool {
    range is Some && range->0.is_void()
}

impl Resource {
    /// The bus of an addressable resource.
    pub open spec fn spec_bus_kind(self) -> Option<BusKind> {
        match self {
            Resource::Mmio(_) => Some(BusKind::Mmio),
            Resource::Port(_) => Some(BusKind::PortIo),
            Resource::SysReg(_) => Some(BusKind::SysReg),
            _ => None,
        }
    }

    /// Whether the resource asks for nothing or for something impossible.
    pub open spec fn is_malformed(self) -> bool {
        match self {
            Resource::Mmio(range) => range.is_void(),
            Resource::Port(range) => range.is_void(),
            Resource::SysReg(range) => range.is_void(),
            Resource::Irq { .. } => false,
            Resource::Msi { vectors } => vectors == 0,
            Resource::Dma { aperture } => is_void_if_present(aperture),
            Resource::PciBar { bar, addr, size, prefetchable } => size == 0 || bar >= PCI_BAR_COUNT
                || is_void_if_present(addr),
        }
    }

    /// Whether two devices cannot own the two resources at once: they are of
    /// the same kind and share an address or a line.
    pub open spec fn conflicts(self, other: Self) -> bool {
        match (self, other) {
            (Resource::Mmio(a), Resource::Mmio(b)) => a.meets(b),
            (Resource::Port(a), Resource::Port(b)) => a.meets(b),
            (Resource::SysReg(a), Resource::SysReg(b)) => a.meets(b),
            (Resource::Irq { line: a, .. }, Resource::Irq { line: b, .. }) => a == b,
            (Resource::Dma { aperture: Some(a) }, Resource::Dma { aperture: Some(b) }) => a.meets(
                b,
            ),
            (
                Resource::PciBar { addr: Some(a), .. },
                Resource::PciBar { addr: Some(b), .. },
            ) => a.meets(b),
            _ => false,
        }
    }

    /// MSI vectors that the resource asks for.
    pub open spec fn msi_demand(self) -> nat {
        match self {
            Resource::Msi { vectors } => vectors as nat,
            _ => 0,
        }
    }

    /// Returns the bus kind for addressable resources.
    pub fn bus_kind(&self) -> (r: Option<BusKind>)
        ensures
            r == self.spec_bus_kind(),
    {
        match self {
            Resource::Mmio(_) => Some(BusKind::Mmio),
            Resource::Port(_) => Some(BusKind::PortIo),
            Resource::SysReg(_) => Some(BusKind::SysReg),
            Resource::Irq { .. } | Resource::Msi { .. } | Resource::Dma { .. }
            | Resource::PciBar { .. } => None,
        }
    }

    /// Returns whether the resource is empty or malformed.
    pub fn is_empty_or_invalid(&self) -> (r: bool)
        ensures
            r == self.is_malformed(),
    {
        match self {
            Resource::Mmio(range) => range.is_empty(),
            Resource::Port(range) => range.is_empty(),
            Resource::SysReg(range) => range.is_empty(),
            Resource::Irq { .. } => false,
            Resource::Msi { vectors } => *vectors == 0,
            Resource::Dma { aperture } => present_and_empty(aperture),
            Resource::PciBar { addr, size, bar, .. } => *size == 0 || *bar >= PCI_BAR_COUNT
                || present_and_empty(addr),
        }
    }

    /// Returns whether this resource overlaps another resource.
    pub fn overlaps(&self, other: &Self) -> (r: bool)
        ensures
            r == self.conflicts(*other),
    {
        match (self, other) {
            (Resource::Mmio(a), Resource::Mmio(b)) => a.overlaps(b),
            (Resource::Port(a), Resource::Port(b)) => a.overlaps(b),
            (Resource::SysReg(a), Resource::SysReg(b)) => a.overlaps(b),
            (Resource::Irq { line: a, .. }, Resource::Irq { line: b, .. }) => *a == *b,
            (Resource::Dma { aperture: Some(a) }, Resource::Dma { aperture: Some(b) }) => {
                a.overlaps(b)
            },
            (
                Resource::PciBar { addr: Some(a), .. },
                Resource::PciBar { addr: Some(b), .. },
            ) => a.overlaps(b),
            _ => false,
        }
    }
}

fn present_and_empty(range: &Option<GuestPhysAddrRange>) -> (r: bool)
    ensures
        r == is_void_if_present(*range),
{
    match range {
        Some(range) => range.is_empty(),
        None => false,
    }
}

/// A group of resources claimed by one device.
#[derive(Debug, PartialEq, Eq)]
pub struct ResourceSet {
    resources: Vec<Resource>,
}

impl View for ResourceSet {
    type V = Seq<Resource>;

    closed spec fn view(&self) -> Seq<Resource> {
        self.resources@
    }
}

impl Clone for ResourceSet {
    fn clone(&self) -> (r: Self)
        ensures
            r@ == self@,
    {
        let resources = self.resources.clone();
        assert(resources@ =~= self.resources@);
        ResourceSet { resources }
    }
}

impl Default for ResourceSet {
    fn default() -> (r: Self)
        ensures
            r@ == Seq::<Resource>::empty(),
    {
        ResourceSet::new()
    }
}

impl ResourceSet {
    /// Creates an empty resource set.
    pub fn new() -> (r: Self)
        ensures
            r@ == Seq::<Resource>::empty(),
    {
        ResourceSet { resources: Vec::new() }
    }

    /// Creates a resource set from a vector.
    pub fn from_vec(resources: Vec<Resource>) -> (r: Self)
        ensures
            r@ == resources@,
    {
        ResourceSet { resources }
    }

    /// Adds one resource.
    pub fn push(&mut self, resource: Resource)
        ensures
            final(self)@ == old(self)@.push(resource),
    {
        self.resources.push(resource);
    }

    /// Adds one resource and returns the set.
    pub fn with(self, resource: Resource) -> (r: Self)
        ensures
            r@ == self@.push(resource),
    {
        let mut set = self;
        set.push(resource);
        set
    }

    /// Returns all resources.
    pub fn as_slice(&self) -> (r: &[Resource])
        ensures
            r@ == self@,
    {
        self.resources.as_slice()
    }

    /// Returns whether the set contains no resources.
    pub fn is_empty(&self) -> (r: bool)
        ensures
            r == (self@.len() == 0),
    {
        self.resources.len() == 0
    }

    /// Returns the first invalid resource, if any.
    pub fn first_invalid(&self) -> (r: Option<&Resource>)
        ensures
            match r {
                Some(resource) => exists|i: int|
                    first_malformed_at(self@, i) && *resource == self@[i],
                None => !has_malformed(self@),
            },
    {
        first_malformed(self.as_slice())
    }
}

/// Whether some resource of the list is malformed.
pub open spec fn has_malformed(resources: Seq<Resource>) -> bool {
    exists|i: int| 0 <= i < resources.len() && (#[trigger] resources[i]).is_malformed()
}

/// Whether the first malformed resource of the list stands at `i`.
pub open spec fn first_malformed_at(resources: Seq<Resource>, i: int) -> bool {
    &&& 0 <= i < resources.len()
    &&& resources[i].is_malformed()
    &&& forall|j: int| 0 <= j < i ==> !(#[trigger] resources[j]).is_malformed()
}

/// Returns the first malformed resource of a list.
pub(crate) fn first_malformed(resources: &[Resource]) -> (r: Option<&Resource>)
    ensures
        match r {
            Some(resource) => exists|i: int|
                first_malformed_at(resources@, i) && *resource == resources@[i],
            None => !has_malformed(resources@),
        },
{
    let mut i: usize = 0;
    while i < resources.len()
        invariant
            i <= resources@.len(),
            forall|j: int| 0 <= j < i ==> !(#[trigger] resources@[j]).is_malformed(),
        decreases resources@.len() - i,
    {
        if resources[i].is_empty_or_invalid() {
            assert(first_malformed_at(resources@, i as int));
            return Some(&resources[i]);
        }
        i = i + 1;
    }
    None
}

/// Device capability flags consumed by VM lifecycle and bus policy.
#[derive(Clone, Copy, Debug, PartialEq, Eq, Structural)]
pub struct DeviceCapabilities {
    /// Device has a reset implementation.
    pub reset: bool,
    /// Device has a suspend implementation.
    pub suspend: bool,
    /// Device has a resume implementation.
    pub resume: bool,
    /// Device can initiate DMA.
    pub dma: bool,
    /// Device supports MSI.
    pub msi: bool,
    /// Device supports MSI-X.
    pub msix: bool,
}

impl DeviceCapabilities {
    /// The capabilities of a device that has none.
    pub open spec fn spec_none() -> Self {
        DeviceCapabilities {
            reset: false,
            suspend: false,
            resume: false,
            dma: false,
            msi: false,
            msix: false,
        }
    }

    /// Returns the empty capability set.
    pub fn none() -> (r: Self)
        ensures
            r == Self::spec_none(),
    {
        DeviceCapabilities {
            reset: false,
            suspend: false,
            resume: false,
            dma: false,
            msi: false,
            msix: false,
        }
    }
}

impl Default for DeviceCapabilities {
    fn default() -> (r: Self)
        ensures
            r == Self::spec_none(),
    {
        DeviceCapabilities::none()
    }
}

/// A declarative description supplied by one device.
pub trait DeviceDescriptor {
    /// The assigned identifier.
    open spec fn spec_device_id(&self) -> DeviceId {
        arbitrary()
    }

    /// The name as a sequence of characters.
    open spec fn spec_name(&self) -> Seq<char> {
        arbitrary()
    }

    /// The claimed resources.
    open spec fn spec_resources(&self) -> Seq<Resource> {
        arbitrary()
    }

    /// Returns the assigned device identifier.
    fn device_id(&self) -> (r: DeviceId)
        ensures
            r == self.spec_device_id(),
    ;

    /// Returns the human-readable device name.
    fn name(&self) -> (r: &str)
        ensures
            r@ == self.spec_name(),
    ;

    /// Returns the resources claimed by the device.
    fn resources(&self) -> (r: ResourceSet)
        ensures
            r@ == self.spec_resources(),
    ;

    /// Returns capability flags for the device.
    fn capabilities(&self) -> (r: DeviceCapabilities)
        default_ensures
            r == DeviceCapabilities::spec_none(),
    {
        DeviceCapabilities::default()
    }
}

/// Creates an MMIO resource from base and size.
pub fn mmio_resource(base: GuestPhysAddr, size: usize) -> (r: Option<Resource>)
    ensures
        base.0 + size > usize::MAX ==> r is None,
        base.0 + size <= usize::MAX ==> r == Some(
            Resource::Mmio(
                GuestPhysAddrRange { start: base, end: GuestPhysAddr((base.0 + size) as usize) },
            ),
        ),
{
    match base.as_usize().checked_add(size) {
        Some(end) => Some(
            Resource::Mmio(GuestPhysAddrRange::new(base, GuestPhysAddr::from_usize(end))),
        ),
        None => None,
    }
}

/// Creates an inclusive port resource from base and size.
pub fn port_resource(base: Port, size: u16) -> (r: Option<Resource>)
    ensures
        size == 0 || base.0 + size - 1 > u16::MAX ==> r is None,
        size > 0 && base.0 + size - 1 <= u16::MAX ==> r == Some(
            Resource::Port(PortRange { start: base, end: Port((base.0 + size - 1) as u16) }),
        ),
{
    match size.checked_sub(1) {
        Some(last) => match base.0.checked_add(last) {
            Some(end) => Some(Resource::Port(PortRange::new(base, Port(end)))),
            None => None,
        },
        None => None,
    }
}

/// Converts a half-open host-style range into a DMA resource.
pub fn dma_resource(range: Range<usize>) -> (r: Option<Resource>)
    requires
        range.start <= range.end,
    ensures
        range.start == range.end ==> r is None,
        range.start < range.end ==> r == Some(
            Resource::Dma {
                aperture: Some(
                    GuestPhysAddrRange {
                        start: GuestPhysAddr(range.start),
                        end: GuestPhysAddr(range.end),
                    },
                ),
            },
        ),
{
    let gpa_range = GuestPhysAddrRange::new(GuestPhysAddr(range.start), GuestPhysAddr(range.end));
    if gpa_range.is_empty() {
        None
    } else {
        Some(Resource::Dma { aperture: Some(gpa_range) })
    }
}

/// Creates a PCI BAR resource. `addr` is optional while firmware or PCI code
/// is still assigning the final placement.
pub fn pci_bar_resource(
    bar: u8,
    addr: Option<GuestPhysAddrRange>,
    size: usize,
    prefetchable: bool,
) -> (r: Option<Resource>)
    ensures
        r == (if (Resource::PciBar { bar, addr, size, prefetchable }).is_malformed() {
            None::<Resource>
        } else {
            Some(Resource::PciBar { bar, addr, size, prefetchable })
        }),
{
    let resource = Resource::PciBar { bar, addr, size, prefetchable };
    if resource.is_empty_or_invalid() {
        None
    } else {
        Some(resource)
    }
}

/// Whether two resources collide does not depend on their order.
pub proof fn law_conflicts_symmetric(a: Resource, b: Resource)
    ensures
        a.conflicts(b) == b.conflicts(a),
{
}

/// A well-formed addressable resource always conflicts with itself: it cannot
/// be claimed twice.
pub proof fn law_addressable_conflicts_with_itself(a: Resource)
    requires
        !a.is_malformed(),
        a.spec_bus_kind() is Some || a is Irq,
    ensures
        a.conflicts(a),
{
}

/// Two interrupt lines conflict exactly when they are the same line, whatever
/// their trigger modes and targets are.
pub proof fn law_irq_lines_conflict_by_number(
    a: IrqLineId,
    b: IrqLineId,
    trigger: InterruptTriggerMode,
    other_trigger: InterruptTriggerMode,
    target: IrqTarget,
    other_target: IrqTarget,
)
    ensures
        (Resource::Irq { line: a, trigger, target }).conflicts(
            Resource::Irq { line: b, trigger: other_trigger, target: other_target },
        ) <==> a.0 == b.0,
{
}

/// Two memory ranges that hold something conflict exactly when some address
/// lies in both. This goes for MMIO ranges, for DMA apertures and for placed
/// BARs, whatever else is said of these.
pub proof fn law_memory_conflicts_by_address(
    a: GuestPhysAddrRange,
    b: GuestPhysAddrRange,
    bar: u8,
    other_bar: u8,
    size: usize,
    other_size: usize,
    prefetchable: bool,
    other_prefetchable: bool,
)
    requires
        a.start.0 < a.end.0,
        b.start.0 < b.end.0,
    ensures
        ({
            let common = exists|addr: usize|
                a.start.0 <= addr < a.end.0 && b.start.0 <= addr && #[trigger] below(addr, b.end.0);
            &&& Resource::Mmio(a).conflicts(Resource::Mmio(b)) <==> common
            &&& (Resource::Dma { aperture: Some(a) }).conflicts(
                Resource::Dma { aperture: Some(b) },
            ) <==> common
            &&& (Resource::PciBar { bar, addr: Some(a), size, prefetchable }).conflicts(
                Resource::PciBar {
                    bar: other_bar,
                    addr: Some(b),
                    size: other_size,
                    prefetchable: other_prefetchable,
                },
            ) <==> common
        }),
{
    if a.start.0 < b.end.0 && b.start.0 < a.end.0 {
        let addr = if a.start.0 <= b.start.0 {
            b.start.0
        } else {
            a.start.0
        };
        assert(below(addr, b.end.0));
    }
}

/// Whether an address lies below another.
pub open spec fn below(addr: usize, end: usize) -> bool {
    addr < end
}

/// Two port ranges, or two system register ranges, conflict exactly when some
/// number lies in both. Their upper bounds belong to them.
pub proof fn law_inclusive_ranges_conflict_by_number(
    a: PortRange,
    b: PortRange,
    c: SysRegAddrRange,
    d: SysRegAddrRange,
)
    ensures
        Resource::Port(a).conflicts(Resource::Port(b)) <==> exists|port: u16|
            a.start.0 <= port <= a.end.0 && b.start.0 <= port && #[trigger] within_port(
                port,
                b.end.0,
            ),
        Resource::SysReg(c).conflicts(Resource::SysReg(d)) <==> exists|addr: usize|
            c.start.0 <= addr <= c.end.0 && d.start.0 <= addr && #[trigger] within(
                addr,
                d.end.0,
            ),
{
    if Resource::Port(a).conflicts(Resource::Port(b)) {
        let port = if a.start.0 <= b.start.0 {
            b.start.0
        } else {
            a.start.0
        };
        assert(within_port(port, b.end.0));
    }
    if Resource::SysReg(c).conflicts(Resource::SysReg(d)) {
        let addr = if c.start.0 <= d.start.0 {
            d.start.0
        } else {
            c.start.0
        };
        assert(within(addr, d.end.0));
    }
}

/// Whether a port does not exceed another.
pub open spec fn within_port(port: u16, last: u16) -> bool {
    port <= last
}

/// Whether a register address does not exceed another.
pub open spec fn within(addr: usize, last: usize) -> bool {
    addr <= last
}

/// Resources of different kinds never conflict. Nor does a vector request, an
/// aperture that is not restricted, or a BAR that is not placed yet.
pub proof fn law_kinds_do_not_conflict(a: Resource, b: Resource)
    requires
        !(a is Mmio && b is Mmio),
        !(a is Port && b is Port),
        !(a is SysReg && b is SysReg),
        !(a is Irq && b is Irq),
        !(a is Dma && b is Dma && a->aperture is Some && b->aperture is Some),
        !(a is PciBar && b is PciBar && a->addr is Some && b->addr is Some),
    ensures
        !a.conflicts(b),
{
}

/// A resource is malformed exactly when it asks for no address, no vector or no
/// byte, or for a BAR that no function has.
pub proof fn law_malformed_resources_ask_for_nothing(
    memory: GuestPhysAddrRange,
    ports: PortRange,
    registers: SysRegAddrRange,
    irq: Resource,
    vectors: usize,
    bar: u8,
    size: usize,
    prefetchable: bool,
)
    requires
        irq is Irq,
    ensures
        Resource::Mmio(memory).is_malformed() <==> memory.end.0 <= memory.start.0,
        Resource::Port(ports).is_malformed() <==> ports.end.0 < ports.start.0,
        Resource::SysReg(registers).is_malformed() <==> registers.end.0 < registers.start.0,
        !irq.is_malformed(),
        (Resource::Msi { vectors }).is_malformed() <==> vectors == 0,
        !(Resource::Dma { aperture: None }).is_malformed(),
        (Resource::Dma { aperture: Some(memory) }).is_malformed() <==> memory.end.0
            <= memory.start.0,
        (Resource::PciBar { bar, addr: None, size, prefetchable }).is_malformed() <==> size == 0
            || bar > 5,
        (Resource::PciBar { bar, addr: Some(memory), size, prefetchable }).is_malformed() <==> size
            == 0 || bar > 5 || memory.end.0 <= memory.start.0,
{
}

/// Ranges live on their buses, and nothing else does.
pub proof fn law_resources_and_their_buses(resource: Resource)
    ensures
        resource is Mmio <==> resource.spec_bus_kind() == Some(BusKind::Mmio),
        resource is Port <==> resource.spec_bus_kind() == Some(BusKind::PortIo),
        resource is SysReg <==> resource.spec_bus_kind() == Some(BusKind::SysReg),
        resource is Irq || resource is Msi || resource is Dma || resource is PciBar
            <==> resource.spec_bus_kind() is None,
        resource is Msi ==> resource.msi_demand() == resource->vectors,
        !(resource is Msi) ==> resource.msi_demand() == 0,
{
}

} // verus!
