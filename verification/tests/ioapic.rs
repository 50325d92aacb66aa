use axvirt::error::AxError;
use axvirt::ioapic::{EmulatedIoApic, IoApicInterrupt};
use axvirt::range::GuestPhysAddrRange;
use axvirt::types::{AccessWidth, EmulatedDeviceType, GuestPhysAddr};

const BASE: usize = 0xfec0_0000;
const LEVEL: u32 = 1 << 15;
const MASKED: u32 = 1 << 16;

fn select(ioapic: &mut EmulatedIoApic, register: usize) {
    ioapic
        .handle_write(GuestPhysAddr(BASE), AccessWidth::Dword, register)
        .unwrap();
}

fn write(ioapic: &mut EmulatedIoApic, register: usize, value: u32) {
    select(ioapic, register);
    ioapic
        .handle_write(
            GuestPhysAddr(BASE + 0x10),
            AccessWidth::Dword,
            value as usize,
        )
        .unwrap();
}

fn read(ioapic: &mut EmulatedIoApic, register: usize) -> usize {
    select(ioapic, register);
    ioapic
        .handle_read(GuestPhysAddr(BASE + 0x10), AccessWidth::Dword)
        .unwrap()
}

fn program(ioapic: &mut EmulatedIoApic, gsi: usize, low: u32) {
    write(ioapic, 0x10 + 2 * gsi, low);
}

fn level(vector: u8) -> Option<IoApicInterrupt> {
    Some(IoApicInterrupt {
        vector,
        level_triggered: true,
    })
}

fn edge(vector: u8) -> Option<IoApicInterrupt> {
    Some(IoApicInterrupt {
        vector,
        level_triggered: false,
    })
}

#[test]
fn fixed_registers_read_their_values() {
    let mut ioapic = EmulatedIoApic::new_default();
    assert_eq!(read(&mut ioapic, 0), 1 << 24);
    assert_eq!(read(&mut ioapic, 1), 0x11 | (23 << 16));
    assert_eq!(read(&mut ioapic, 2), 1 << 24);
    assert_eq!(read(&mut ioapic, 3), 0);
    assert_eq!(read(&mut ioapic, 0x40), 0);
    assert_eq!(read(&mut ioapic, 0x10), 1 << 16);
    write(&mut ioapic, 0, 7);
    assert_eq!(read(&mut ioapic, 0), 1 << 24);
    write(&mut ioapic, 0x40, 7);
    assert_eq!(read(&mut ioapic, 0x40), 0);
}

#[test]
fn entries_read_back_what_was_written() {
    let mut ioapic = EmulatedIoApic::new_default();
    write(&mut ioapic, 0x3e, 0x1_a0ff);
    write(&mut ioapic, 0x3f, 0xdead_beef);
    assert_eq!(read(&mut ioapic, 0x3e), 0x1_a0ff);
    assert_eq!(read(&mut ioapic, 0x3f), 0xdead_beef);
    write(&mut ioapic, 0x10, 0x4031);
    assert_eq!(read(&mut ioapic, 0x10), 0x31);
}

#[test]
fn selector_and_other_offsets() {
    let mut ioapic = EmulatedIoApic::new_default();
    select(&mut ioapic, 0x1_0000_0012);
    assert_eq!(
        ioapic.handle_read(GuestPhysAddr(BASE), AccessWidth::Qword),
        Ok(0x12)
    );
    assert_eq!(
        ioapic.handle_read(GuestPhysAddr(BASE + 4), AccessWidth::Dword),
        Ok(0)
    );
    assert_eq!(
        ioapic.handle_write(GuestPhysAddr(BASE + 4), AccessWidth::Dword, 9),
        Ok(())
    );
    assert_eq!(
        ioapic.handle_read(GuestPhysAddr(BASE), AccessWidth::Byte),
        Err(AxError::Unsupported)
    );
    assert_eq!(
        ioapic.handle_write(GuestPhysAddr(BASE), AccessWidth::Word, 0),
        Err(AxError::Unsupported)
    );
}

#[test]
fn window_and_type() {
    let ioapic = EmulatedIoApic::new(GuestPhysAddr(0x1000), Some(0x200));
    assert_eq!(
        ioapic.address_range(),
        GuestPhysAddrRange::new(GuestPhysAddr(0x1000), GuestPhysAddr(0x1200))
    );
    assert_eq!(ioapic.emu_type(), EmulatedDeviceType::X86IoApic);
    let default_size = EmulatedIoApic::new(GuestPhysAddr(0x1000), None);
    assert_eq!(default_size.address_range().end, GuestPhysAddr(0x2000));
    assert_eq!(
        EmulatedIoApic::default().address_range().start,
        GuestPhysAddr(BASE)
    );
}

#[test]
fn only_routed_lines_have_a_vector() {
    let mut ioapic = EmulatedIoApic::new_default();
    assert_eq!(ioapic.vector_for_gsi(3), None);
    program(&mut ioapic, 3, 0x30);
    assert_eq!(ioapic.vector_for_gsi(3), Some(0x30));
    program(&mut ioapic, 3, 0x0f);
    assert_eq!(ioapic.vector_for_gsi(3), None);
    program(&mut ioapic, 3, 0x130);
    assert_eq!(ioapic.vector_for_gsi(3), None);
    assert_eq!(ioapic.pulse_gsi(3), None);
    assert_eq!(ioapic.vector_for_gsi(24), None);
}

#[test]
fn missing_line_is_ignored() {
    let mut ioapic = EmulatedIoApic::new_default();
    assert_eq!(ioapic.pulse_gsi(24), None);
    assert_eq!(ioapic.set_gsi_level(24, true), None);
}

#[test]
fn masked_line_is_silent() {
    let mut ioapic = EmulatedIoApic::new_default();
    program(&mut ioapic, 2, 0x30 | MASKED);
    assert_eq!(ioapic.pulse_gsi(2), None);
    assert_eq!(ioapic.set_gsi_level(2, true), None);
    assert!(ioapic.route_asserted_lines().is_empty());
}

#[test]
fn edge_line_repeats() {
    let mut ioapic = EmulatedIoApic::new_default();
    program(&mut ioapic, 2, 0x30);
    assert_eq!(ioapic.pulse_gsi(2), edge(0x30));
    assert_eq!(ioapic.pulse_gsi(2), edge(0x30));
}

#[test]
fn level_pulse_is_remembered_until_the_end() {
    let mut ioapic = EmulatedIoApic::new_default();
    program(&mut ioapic, 2, 0x30 | LEVEL);
    assert_eq!(ioapic.pulse_gsi(2), level(0x30));
    assert_eq!(read(&mut ioapic, 0x14), (0x30 | LEVEL | (1 << 14)) as usize);
    assert_eq!(ioapic.pulse_gsi(2), None);
    assert_eq!(ioapic.end_of_interrupt(0x30), level(0x30));
    assert_eq!(ioapic.end_of_interrupt(0x30), None);
    assert_eq!(ioapic.pulse_gsi(2), level(0x30));
}

#[test]
fn asserted_lines_are_routed_in_order_once() {
    let mut ioapic = EmulatedIoApic::new_default();
    assert_eq!(ioapic.set_gsi_level(9, true), None);
    assert_eq!(ioapic.set_gsi_level(4, true), None);
    program(&mut ioapic, 9, 0x39 | LEVEL);
    program(&mut ioapic, 4, 0x34);
    assert_eq!(
        ioapic.route_asserted_lines(),
        vec![
            IoApicInterrupt {
                vector: 0x34,
                level_triggered: false,
            },
            IoApicInterrupt {
                vector: 0x39,
                level_triggered: true,
            },
        ]
    );
    assert!(ioapic.route_asserted_lines().is_empty());
}

#[test]
fn lowered_line_is_not_routed() {
    let mut ioapic = EmulatedIoApic::new_default();
    ioapic.set_gsi_level(9, true);
    ioapic.set_gsi_level(9, false);
    program(&mut ioapic, 9, 0x39);
    assert!(ioapic.route_asserted_lines().is_empty());
}

#[test]
fn reconfigured_line_starts_afresh() {
    let mut ioapic = EmulatedIoApic::new_default();
    program(&mut ioapic, 2, 0x30 | LEVEL);
    assert_eq!(ioapic.set_gsi_level(2, true), level(0x30));
    program(&mut ioapic, 2, 0x30 | LEVEL);
    assert!(ioapic.route_asserted_lines().is_empty());
    program(&mut ioapic, 2, 0x31 | LEVEL);
    assert_eq!(
        ioapic.route_asserted_lines(),
        vec![IoApicInterrupt {
            vector: 0x31,
            level_triggered: true,
        }]
    );
    assert_eq!(ioapic.end_of_interrupt(0x30), None);
}

#[test]
fn end_stops_at_the_first_line_that_is_sent_again() {
    let mut ioapic = EmulatedIoApic::new_default();
    program(&mut ioapic, 3, 0x40 | LEVEL);
    program(&mut ioapic, 5, 0x40 | LEVEL);
    assert_eq!(ioapic.set_gsi_level(3, true), level(0x40));
    assert_eq!(ioapic.pulse_gsi(5), level(0x40));
    assert_eq!(ioapic.end_of_interrupt(0x40), level(0x40));
    assert_eq!(ioapic.pulse_gsi(5), None);
    ioapic.set_gsi_level(3, false);
    assert_eq!(ioapic.end_of_interrupt(0x40), level(0x40));
}

#[test]
fn lines_do_not_disturb_each_other() {
    let mut ioapic = EmulatedIoApic::new_default();
    program(&mut ioapic, 3, 0x40 | LEVEL);
    program(&mut ioapic, 4, 0x41 | LEVEL);
    assert_eq!(ioapic.pulse_gsi(3), level(0x40));
    assert_eq!(ioapic.pulse_gsi(4), level(0x41));
    assert_eq!(ioapic.end_of_interrupt(0x41), None);
    assert_eq!(ioapic.pulse_gsi(3), None);
    assert_eq!(ioapic.pulse_gsi(4), level(0x41));
}
