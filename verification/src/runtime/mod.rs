//! Interrupt work around the entries and exits of a vCPU.

pub mod aarch64_irq;
pub mod x86_irq;
