//! Identifiers and configuration values of a virtual machine.

use vstd::prelude::*;

verus! {

/// Identifier of a vCPU within its VM.
pub type VCpuId = usize;

/// Interrupt vector number injected into a guest.
pub type InterruptVector = u8;

/// The vCPU that boots the VM and receives every routed line interrupt.
pub const BSP_VCPU_ID: usize = 0;

/// Trigger mode of an interrupt.
#[derive(Clone, Copy, Debug, PartialEq, Eq, Structural)]
pub enum InterruptTriggerMode {
    /// Edge-triggered interrupt.
    EdgeTriggered,
    /// Level-triggered interrupt.
    LevelTriggered,
}

/// Identifier of an interrupt line within a VM.
#[derive(Clone, Copy, Debug, PartialEq, Eq, Structural)]
pub struct IrqLineId(pub usize);

/// How a VM handles interrupts.
#[derive(Clone, Copy, Debug, PartialEq, Eq, Structural)]
pub enum VMInterruptMode {
    /// The VM handles no interrupts.
    NoIrq,
    /// The VM uses an emulated interrupt controller.
    Emulated,
    /// The VM uses a passthrough interrupt controller.
    Passthrough,
}

/// Width of a guest bus access.
#[derive(Clone, Copy, Debug, PartialEq, Eq, Structural)]
pub enum AccessWidth {
    /// 8-bit access.
    Byte,
    /// 16-bit access.
    Word,
    /// 32-bit access.
    Dword,
    /// 64-bit access.
    Qword,
}

/// Guest physical address.
#[derive(Clone, Copy, Debug, PartialEq, Eq, Structural)]
pub struct GuestPhysAddr(pub usize);

impl GuestPhysAddr {
    /// Creates an address from its number.
    pub fn from_usize(addr: usize) -> (r: Self)
        ensures
            r == GuestPhysAddr(addr),
    {
        GuestPhysAddr(addr)
    }

    /// Returns the address as a number.
    pub fn as_usize(self) -> (r: usize)
        ensures
            r == self.0,
    {
        self.0
    }
}

/// Number of an x86 I/O port.
#[derive(Clone, Copy, Debug, PartialEq, Eq, Structural)]
pub struct Port(pub u16);

/// Address of a system register.
#[derive(Clone, Copy, Debug, PartialEq, Eq, Structural)]
pub struct SysRegAddr(pub usize);

/// Type of an emulated device.
#[derive(Clone, Copy, Debug, PartialEq, Eq, Structural)]
pub enum EmulatedDeviceType {
    /// Dummy device.
    Dummy,
    /// Interrupt controller.
    InterruptController,
    /// Console (serial) device.
    Console,
    /// Inter-VM communication channel.
    IVCChannel,
    /// GIC partial-passthrough redistributor.
    GPPTRedistributor,
    /// GIC partial-passthrough distributor.
    GPPTDistributor,
    /// GIC partial-passthrough interrupt translation service.
    GPPTITS,
    /// x86 virtual IO APIC.
    X86IoApic,
    /// x86 virtual PIT timer.
    X86Pit,
    /// PLIC partial-passthrough global device.
    PPPTGlobal,
    /// Virtio block device.
    VirtioBlk,
    /// Virtio net device.
    VirtioNet,
    /// Virtio console device.
    VirtioConsole,
}

/// One named interrupt output of a configured device.
#[derive(Debug)]
pub struct DeviceIrqConfig {
    /// Name of the output.
    pub name: String,
    /// VM-local line that the output drives.
    pub line: usize,
}

/// Configuration of one emulated device.
#[derive(Debug)]
pub struct EmulatedDeviceConfig {
    /// Name of the device.
    pub name: String,
    /// First guest physical address (or port) of the device.
    pub base_gpa: usize,
    /// Number of addresses (or ports) of the device.
    pub length: usize,
    /// Default interrupt line of the device.
    pub irq_id: usize,
    /// Interrupt outputs configured by name.
    pub irqs: Vec<DeviceIrqConfig>,
    /// Type of the device.
    pub emu_type: EmulatedDeviceType,
    /// Device-specific arguments.
    pub cfg_list: Vec<usize>,
}

} // verus!
