//! Interrupt routing and emulated-device plumbing of a hypervisor.
//!
//! The crate decides what a virtual machine monitor does with device
//! resources, bus accesses and interrupts: which device owns an address, which
//! vCPU an interrupt line reaches, what the virtual IO APIC delivers, and which
//! interrupts stay queued when a vCPU cannot take them. Every function carries
//! a contract.

pub mod access;
pub mod boot;
pub mod bus;
pub mod bus_router;
pub mod device;
pub mod device_lists;
pub mod device_ops;
pub mod error;
pub mod factory;
pub mod gic;
pub mod ioapic;
pub mod irq;
pub mod lifecycle;
pub mod pch_pic;
pub mod range;
pub mod range_alloc;
pub mod registry;
pub mod resource;
pub mod runtime;
pub mod shared;
pub mod types;
pub mod vm_devices;
