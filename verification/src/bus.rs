//! Unified bus transaction types.

use crate::error::AxError;
use crate::resource::BusKind;
use crate::types::{AccessWidth, GuestPhysAddr, Port, SysRegAddr};
use vstd::prelude::*;

verus! {

/// Address carried by a bus transaction.
#[derive(Clone, Copy, Debug, PartialEq, Eq, Structural)]
pub enum BusAddress {
    /// MMIO guest physical address.
    Mmio(GuestPhysAddr),
    /// Port I/O address.
    Port(Port),
    /// System register address.
    SysReg(SysRegAddr),
    /// PCI configuration address.
    PciConfig {
        /// PCI segment number.
        segment: u16,
        /// PCI bus number.
        bus: u8,
        /// PCI device number.
        device: u8,
        /// PCI function number.
        function: u8,
        /// Register offset.
        offset: u16,
    },
}

impl BusAddress {
    /// The bus on which the address lives.
    pub open spec fn spec_kind(self) -> BusKind {
        match self {
            BusAddress::Mmio(_) => BusKind::Mmio,
            BusAddress::Port(_) => BusKind::PortIo,
            BusAddress::SysReg(_) => BusKind::SysReg,
            BusAddress::PciConfig { .. } => BusKind::PciConfig,
        }
    }

    /// Returns the bus kind implied by this address.
    pub fn kind(self) -> (r: BusKind)
        ensures
            r == self.spec_kind(),
    {
        match self {
            BusAddress::Mmio(_) => BusKind::Mmio,
            BusAddress::Port(_) => BusKind::PortIo,
            BusAddress::SysReg(_) => BusKind::SysReg,
            BusAddress::PciConfig { .. } => BusKind::PciConfig,
        }
    }
}

/// Operation carried by a bus transaction.
#[derive(Clone, Copy, Debug, PartialEq, Eq, Structural)]
pub enum BusOperation {
    /// Read from the target address.
    Read,
    /// Write the given value to the target address.
    Write {
        /// Value to write.
        value: usize,
    },
}

/// A normalized VM-exit device access.
#[derive(Clone, Copy, Debug, PartialEq, Eq, Structural)]
pub struct BusAccess {
    /// Bus address.
    pub address: BusAddress,
    /// Access width.
    pub width: AccessWidth,
    /// Read or write operation.
    pub operation: BusOperation,
}

impl BusAccess {
    /// Creates a read access.
    pub fn read(address: BusAddress, width: AccessWidth) -> (r: Self)
        ensures
            r == (BusAccess { address, width, operation: BusOperation::Read }),
    {
        BusAccess { address, width, operation: BusOperation::Read }
    }

    /// Creates a write access.
    pub fn write(address: BusAddress, width: AccessWidth, value: usize) -> (r: Self)
        ensures
            r == (BusAccess { address, width, operation: BusOperation::Write { value } }),
    {
        BusAccess { address, width, operation: BusOperation::Write { value } }
    }

    /// Returns the bus kind.
    pub fn kind(self) -> (r: BusKind)
        ensures
            r == self.address.spec_kind(),
    {
        self.address.kind()
    }
}

/// Result returned by a bus handler.
#[derive(Clone, Copy, Debug, PartialEq, Eq, Structural)]
pub enum BusResponse {
    /// Read completed with the returned value.
    Read {
        /// Read value.
        value: usize,
    },
    /// Write completed.
    WriteComplete,
}

/// Structured device access error used by routers and registries.
#[derive(Clone, Copy, Debug, PartialEq, Eq, Structural)]
pub enum DeviceError {
    /// No device owns the bus address.
    NotFound,
    /// The access width is not supported at the target address.
    InvalidWidth,
    /// A write targeted a read-only register.
    ReadOnly,
    /// A read targeted a write-only register.
    WriteOnly,
    /// A resource conflicts with an existing resource.
    ResourceConflict,
    /// The target architecture or backend does not support the request.
    Unsupported,
}

impl DeviceError {
    /// Converts a structured device error into the nearest shared error kind.
    pub fn as_ax_error(self) -> (r: AxError)
        ensures
            r == (match self {
                DeviceError::NotFound => AxError::NotFound,
                DeviceError::InvalidWidth => AxError::InvalidInput,
                DeviceError::ReadOnly => AxError::InvalidInput,
                DeviceError::WriteOnly => AxError::InvalidInput,
                DeviceError::ResourceConflict => AxError::AddrInUse,
                DeviceError::Unsupported => AxError::Unsupported,
            }),
    {
        match self {
            DeviceError::NotFound => AxError::NotFound,
            DeviceError::InvalidWidth | DeviceError::ReadOnly | DeviceError::WriteOnly => {
                AxError::InvalidInput
            },
            DeviceError::ResourceConflict => AxError::AddrInUse,
            DeviceError::Unsupported => AxError::Unsupported,
        }
    }
}

} // verus!
