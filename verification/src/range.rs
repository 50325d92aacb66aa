//! Address ranges of the guest buses.

use crate::bus::BusAddress;
use crate::types::{GuestPhysAddr, Port, SysRegAddr};
use vstd::prelude::*;

verus! {

/// Calls `ax_memory_addr::AddrRange::new`, which keeps both bounds and panics
/// when the lower one exceeds the upper one.
#[verifier::external_body]
fn addr_range_new(start: usize, end: usize) -> (r: (usize, usize))
    requires
        start <= end,
    ensures
        r == (start, end),
{
    let range = ax_memory_addr::AddrRange::<usize>::new(start, end);
    (range.start, range.end)
}

/// Calls `ax_memory_addr::AddrRange::is_empty`, which holds unless the lower
/// bound lies below the upper one.
#[verifier::external_body]
fn addr_range_is_empty(start: usize, end: usize) -> (r: bool)
    ensures
        r == (start >= end),
{
    ax_memory_addr::AddrRange::<usize> { start, end }.is_empty()
}

/// Calls `ax_memory_addr::AddrRange::contains`: the lower bound belongs to the
/// range, the upper one does not.
#[verifier::external_body]
fn addr_range_contains(start: usize, end: usize, addr: usize) -> (r: bool)
    ensures
        r == (start <= addr && addr < end),
{
    ax_memory_addr::AddrRange::<usize> { start, end }.contains(addr)
}

/// Calls `ax_memory_addr::AddrRange::overlaps`: each range starts below the end
/// of the other.
#[verifier::external_body]
fn addr_range_overlaps(start: usize, end: usize, other_start: usize, other_end: usize) -> (r: bool)
    ensures
        r == (start < other_end && other_start < end),
{
    ax_memory_addr::AddrRange::<usize> { start, end }.overlaps(
        ax_memory_addr::AddrRange::<usize> { start: other_start, end: other_end },
    )
}

/// A range of addresses on one kind of bus.
pub trait DeviceAddrRange: Copy {
    /// Address on the bus.
    type Addr: Copy;

    /// The address as one of its bus.
    spec fn on_bus(addr: Self::Addr) -> BusAddress;

    /// Whether the range holds the address.
    spec fn holds(self, addr: Self::Addr) -> bool;

    /// Whether the range holds no address.
    spec fn is_void(self) -> bool;

    /// Whether the two ranges collide.
    spec fn meets(self, other: Self) -> bool;

    /// Two ranges that hold a common address collide.
    proof fn lemma_common_address_meets(self, other: Self, addr: Self::Addr)
        requires
            self.holds(addr),
            other.holds(addr),
        ensures
            self.meets(other),
    ;

    /// Two non-void ranges that collide have an address in common.
    proof fn lemma_meets_common_address(self, other: Self) -> (addr: Self::Addr)
        requires
            self.meets(other),
            !self.is_void(),
            !other.is_void(),
        ensures
            self.holds(addr),
            other.holds(addr),
    ;

    /// A range that is not void holds an address.
    proof fn lemma_not_void_holds(self) -> (addr: Self::Addr)
        requires
            !self.is_void(),
        ensures
            self.holds(addr),
    ;

    /// A void range holds no address.
    proof fn lemma_void_holds_nothing(self, addr: Self::Addr)
        requires
            self.is_void(),
        ensures
            !self.holds(addr),
    ;

    /// Returns whether the range holds the address.
    fn contains(&self, addr: Self::Addr) -> (r: bool)
        ensures
            r == self.holds(addr),
    ;

    /// Returns whether the range holds no address.
    fn is_empty(&self) -> (r: bool)
        ensures
            r == self.is_void(),
    ;

    /// Returns whether the two ranges collide.
    fn overlaps(&self, other: &Self) -> (r: bool)
        ensures
            r == self.meets(*other),
    ;

    /// Returns whether the two ranges are the same.
    fn same_as(&self, other: &Self) -> (r: bool)
        ensures
            r == (*self == *other),
    ;
}

/// Guest physical address range: `start` belongs to it, `end` does not.
#[derive(Clone, Copy, Debug, PartialEq, Eq, Structural)]
pub struct GuestPhysAddrRange {
    /// First address.
    pub start: GuestPhysAddr,
    /// First address past the range.
    pub end: GuestPhysAddr,
}

impl GuestPhysAddrRange {
    /// Creates the range from `start` up to `end`.
    pub fn new(start: GuestPhysAddr, end: GuestPhysAddr) -> (r: Self)
        requires
            start.0 <= end.0,
        ensures
            r == (GuestPhysAddrRange { start, end }),
    {
        let (first, past): (usize, usize) = addr_range_new(start.0, end.0);
        GuestPhysAddrRange { start: GuestPhysAddr(first), end: GuestPhysAddr(past) }
    }
}

impl DeviceAddrRange for GuestPhysAddrRange {
    type Addr = GuestPhysAddr;

    open spec fn on_bus(addr: GuestPhysAddr) -> BusAddress {
        BusAddress::Mmio(addr)
    }

    open spec fn holds(self, addr: GuestPhysAddr) -> bool {
        self.start.0 <= addr.0 < self.end.0
    }

    open spec fn is_void(self) -> bool {
        self.start.0 >= self.end.0
    }

    open spec fn meets(self, other: Self) -> bool {
        self.start.0 < other.end.0 && other.start.0 < self.end.0
    }

    proof fn lemma_common_address_meets(self, other: Self, addr: GuestPhysAddr) {
    }

    proof fn lemma_meets_common_address(self, other: Self) -> (addr: GuestPhysAddr) {
        if self.start.0 <= other.start.0 {
            other.start
        } else {
            self.start
        }
    }

    proof fn lemma_not_void_holds(self) -> (addr: GuestPhysAddr) {
        self.start
    }

    proof fn lemma_void_holds_nothing(self, addr: GuestPhysAddr) {
    }

    fn contains(&self, addr: GuestPhysAddr) -> (r: bool) {
        addr_range_contains(self.start.0, self.end.0, addr.0)
    }

    fn is_empty(&self) -> (r: bool) {
        addr_range_is_empty(self.start.0, self.end.0)
    }

    fn overlaps(&self, other: &Self) -> (r: bool) {
        addr_range_overlaps(self.start.0, self.end.0, other.start.0, other.end.0)
    }

    fn same_as(&self, other: &Self) -> (r: bool) {
        *self == *other
    }
}

/// Port range that holds both of its bounds.
#[derive(Clone, Copy, Debug, PartialEq, Eq, Structural)]
pub struct PortRange {
    /// First port.
    pub start: Port,
    /// Last port.
    pub end: Port,
}

impl PortRange {
    /// Creates the range from `start` to `end`.
    pub fn new(start: Port, end: Port) -> (r: Self)
        ensures
            r == (PortRange { start, end }),
    {
        PortRange { start, end }
    }
}

impl DeviceAddrRange for PortRange {
    type Addr = Port;

    open spec fn on_bus(addr: Port) -> BusAddress {
        BusAddress::Port(addr)
    }

    open spec fn holds(self, addr: Port) -> bool {
        self.start.0 <= addr.0 <= self.end.0
    }

    open spec fn is_void(self) -> bool {
        self.start.0 > self.end.0
    }

    open spec fn meets(self, other: Self) -> bool {
        !self.is_void() && !other.is_void() && self.start.0 <= other.end.0 && other.start.0
            <= self.end.0
    }

    proof fn lemma_common_address_meets(self, other: Self, addr: Port) {
    }

    proof fn lemma_meets_common_address(self, other: Self) -> (addr: Port) {
        if self.start.0 <= other.start.0 {
            other.start
        } else {
            self.start
        }
    }

    proof fn lemma_not_void_holds(self) -> (addr: Port) {
        self.start
    }

    proof fn lemma_void_holds_nothing(self, addr: Port) {
    }

    fn contains(&self, addr: Port) -> (r: bool) {
        self.start.0 <= addr.0 && addr.0 <= self.end.0
    }

    fn is_empty(&self) -> (r: bool) {
        self.start.0 > self.end.0
    }

    fn overlaps(&self, other: &Self) -> (r: bool) {
        self.start.0 <= other.end.0 && other.start.0 <= self.end.0 && self.start.0 <= self.end.0
            && other.start.0 <= other.end.0
    }

    fn same_as(&self, other: &Self) -> (r: bool) {
        *self == *other
    }
}

/// System register range that holds both of its bounds.
#[derive(Clone, Copy, Debug, PartialEq, Eq, Structural)]
pub struct SysRegAddrRange {
    /// First register.
    pub start: SysRegAddr,
    /// Last register.
    pub end: SysRegAddr,
}

impl SysRegAddrRange {
    /// Creates the range from `start` to `end`.
    pub fn new(start: SysRegAddr, end: SysRegAddr) -> (r: Self)
        ensures
            r == (SysRegAddrRange { start, end }),
    {
        SysRegAddrRange { start, end }
    }
}

impl DeviceAddrRange for SysRegAddrRange {
    type Addr = SysRegAddr;

    open spec fn on_bus(addr: SysRegAddr) -> BusAddress {
        BusAddress::SysReg(addr)
    }

    open spec fn holds(self, addr: SysRegAddr) -> bool {
        self.start.0 <= addr.0 <= self.end.0
    }

    open spec fn is_void(self) -> bool {
        self.start.0 > self.end.0
    }

    open spec fn meets(self, other: Self) -> bool {
        !self.is_void() && !other.is_void() && self.start.0 <= other.end.0 && other.start.0
            <= self.end.0
    }

    proof fn lemma_common_address_meets(self, other: Self, addr: SysRegAddr) {
    }

    proof fn lemma_meets_common_address(self, other: Self) -> (addr: SysRegAddr) {
        if self.start.0 <= other.start.0 {
            other.start
        } else {
            self.start
        }
    }

    proof fn lemma_not_void_holds(self) -> (addr: SysRegAddr) {
        self.start
    }

    proof fn lemma_void_holds_nothing(self, addr: SysRegAddr) {
    }

    fn contains(&self, addr: SysRegAddr) -> (r: bool) {
        self.start.0 <= addr.0 && addr.0 <= self.end.0
    }

    fn is_empty(&self) -> (r: bool) {
        self.start.0 > self.end.0
    }

    fn overlaps(&self, other: &Self) -> (r: bool) {
        self.start.0 <= other.end.0 && other.start.0 <= self.end.0 && self.start.0 <= self.end.0
            && other.start.0 <= other.end.0
    }

    fn same_as(&self, other: &Self) -> (r: bool) {
        *self == *other
    }
}

/// Which addresses the ranges hold: a guest physical range excludes its upper
/// bound, port and system register ranges include it.
pub proof fn law_ranges_hold_what_lies_between_their_bounds(
    memory: GuestPhysAddrRange,
    addr: GuestPhysAddr,
    ports: PortRange,
    port: Port,
    registers: SysRegAddrRange,
    register: SysRegAddr,
)
    ensures
        memory.holds(addr) <==> memory.start.0 <= addr.0 && addr.0 < memory.end.0,
        ports.holds(port) <==> ports.start.0 <= port.0 && port.0 <= ports.end.0,
        registers.holds(register) <==> registers.start.0 <= register.0 && register.0
            <= registers.end.0,
{
}

} // verus!
