use axvirt::boot::{
    configuration_tables, init_boot_page_table,
    loongarch_qemu_fdt_from_systab, ConfigurationTables, EfiConfigurationTable, EfiSystemTable,
    EfiTableHeader, PageMapping, EFI_SYSTEM_TABLE_SIGNATURE,
};
use axvirt::error::{AxError, AxResult};
use axvirt::gic::{
    decode_list_registers, fetch_irq, inject_interrupt, validate_interrupt, Enabling, HostGic,
    Injection, ListRegister, ListRegisterFields, ListRegisterState, RegisterUpdate,
};
use axvirt::pch_pic::{
    disable_irq, enable_irq, init, mask_register, split_bit, RegisterWrite,
};

fn register(virtual_id: u64, state: ListRegisterState, vacant: bool) -> ListRegister {
    ListRegister {
        virtual_id,
        state,
        vacant,
    }
}

fn v3(registers: Vec<ListRegister>, enabled: bool) -> HostGic {
    HostGic::V3 { registers, enabled }
}

fn written_to(injection: AxResult<Injection>) -> Option<usize> {
    match injection {
        Ok(Injection::Write(update)) => Some(update.index),
        _ => None,
    }
}

#[test]
fn injection_needs_a_usable_gic() {
    assert_eq!(validate_interrupt(1019), Ok(()));
    assert_eq!(
        inject_interrupt(1020, &HostGic::Missing),
        Err(AxError::InvalidInput)
    );
    assert_eq!(
        inject_interrupt(27, &HostGic::Missing),
        Err(AxError::NoSuchDevice)
    );
    assert_eq!(
        inject_interrupt(27, &HostGic::Busy),
        Err(AxError::ResourceBusy)
    );
    assert_eq!(
        inject_interrupt(27, &HostGic::V2WithoutHypervisor),
        Err(AxError::NoSuchDevice)
    );
    assert_eq!(
        inject_interrupt(27, &HostGic::Unknown),
        Err(AxError::NoSuchDevice)
    );
}

#[test]
fn injection_takes_the_first_vacant_register() {
    let busy = register(30, ListRegisterState::Active, false);
    let free = register(0, ListRegisterState::Invalid, true);
    for gic in [
        HostGic::V2(vec![busy, free, free]),
        v3(vec![busy, free, free], true),
    ] {
        assert_eq!(written_to(inject_interrupt(27, &gic)), Some(1));
        assert_eq!(inject_interrupt(30, &gic), Ok(Injection::AlreadyHeld));
    }
    assert_eq!(
        inject_interrupt(27, &HostGic::V2(vec![busy])),
        Err(AxError::WouldBlock)
    );
    assert_eq!(
        inject_interrupt(27, &v3(vec![busy], true)),
        Err(AxError::WouldBlock)
    );
}

#[test]
fn gicv2_injection_enables_the_interface_first() {
    let free = register(0, ListRegisterState::Invalid, true);
    assert_eq!(
        inject_interrupt(27, &HostGic::V2(vec![free])),
        Ok(Injection::Write(RegisterUpdate {
            index: 0,
            register: register(27, ListRegisterState::Pending, false),
            priority: 0,
            group1: false,
            eoi_maintenance: true,
            enabling: Enabling::BeforeWrite,
        }))
    );
}

#[test]
fn gicv3_injection_enables_a_disabled_interface() {
    let busy = register(30, ListRegisterState::Active, false);
    let free = register(0, ListRegisterState::Invalid, true);
    for (enabled, enabling) in [(true, Enabling::NotNeeded), (false, Enabling::AfterWrite)] {
        assert_eq!(
            inject_interrupt(1019, &v3(vec![busy, free], enabled)),
            Ok(Injection::Write(RegisterUpdate {
                index: 1,
                register: register(1019, ListRegisterState::Pending, false),
                priority: 0,
                group1: true,
                eoi_maintenance: false,
                enabling,
            }))
        );
    }
}

#[test]
fn injection_is_idempotent() {
    let written = register(27, ListRegisterState::Pending, false);
    assert_eq!(
        inject_interrupt(27, &HostGic::V2(vec![written])),
        Ok(Injection::AlreadyHeld)
    );
    assert_eq!(
        inject_interrupt(27, &v3(vec![written], false)),
        Ok(Injection::AlreadyHeld)
    );
}

#[test]
fn gic_versions_differ_in_what_counts_as_held() {
    let both = register(27, ListRegisterState::PendingAndActive, false);
    let invalid = register(9, ListRegisterState::Invalid, false);
    assert_eq!(
        inject_interrupt(27, &HostGic::V2(vec![both, invalid])),
        Ok(Injection::AlreadyHeld)
    );
    assert_eq!(
        written_to(inject_interrupt(27, &v3(vec![both, invalid], true))),
        Some(1)
    );
    assert_eq!(
        inject_interrupt(28, &HostGic::V2(vec![both, invalid])),
        Err(AxError::WouldBlock)
    );
}

#[test]
fn list_registers_are_decoded() {
    let fields = |virtual_id, state| ListRegisterFields { virtual_id, state };
    assert_eq!(
        decode_list_registers(
            0b0100,
            &vec![fields(1, 0), fields(2, 1), fields(3, 2), fields(4, 3)]
        ),
        vec![
            register(1, ListRegisterState::Invalid, false),
            register(2, ListRegisterState::Pending, false),
            register(3, ListRegisterState::Active, true),
            register(4, ListRegisterState::PendingAndActive, false),
        ]
    );
}

#[test]
fn unhandled_host_interrupt_is_zero() {
    assert_eq!(fetch_irq(Some(33)), 33);
    assert_eq!(fetch_irq(None), 0);
}

#[test]
fn pic_is_initialized_in_order() {
    let writes = init();
    assert_eq!(writes.len(), 10 + 128);
    assert_eq!(
        writes[..6].to_vec(),
        vec![
            RegisterWrite::Word { offset: 0x20, value: u32::MAX },
            RegisterWrite::Word { offset: 0x80, value: u32::MAX },
            RegisterWrite::Word { offset: 0x60, value: 0 },
            RegisterWrite::Word { offset: 0x3e0, value: 0 },
            RegisterWrite::Word { offset: 0x40, value: u32::MAX },
            RegisterWrite::Word { offset: 0x24, value: u32::MAX },
        ]
    );
    assert_eq!(
        writes[136..].to_vec(),
        vec![
            RegisterWrite::Byte { offset: 0x13f, value: 1 },
            RegisterWrite::Byte { offset: 0x23f, value: 63 },
        ]
    );
}

#[test]
fn pic_interrupts_have_their_own_bits() {
    assert_eq!(split_bit(0), (0, 1));
    assert_eq!(split_bit(31), (0, 1 << 31));
    assert_eq!(split_bit(32), (4, 1));
    assert_eq!(split_bit(63), (4, 1 << 31));
    assert_eq!(mask_register(40), 0x24);
}

#[test]
fn enabling_undoes_disabling() {
    let mask = 0xf0u32;
    let disabled = match disable_irq(33, mask) {
        RegisterWrite::Word { offset, value } => {
            assert_eq!(offset, 0x24);
            value
        }
        RegisterWrite::Byte { .. } => panic!("a mask register is a word"),
    };
    assert_eq!(disabled, 0xf2);
    assert_eq!(
        enable_irq(33, disabled),
        (
            RegisterWrite::Word { offset: 0x24, value: mask },
            RegisterWrite::Byte { offset: 0x221, value: 33 },
        )
    );
}

#[test]
fn boot_pages_map_their_own_addresses() {
    let table = init_boot_page_table();
    assert_eq!(table.l0_index, 0x100);
    assert_eq!(table.l1_table_index, 0);
    assert_eq!(table.l1_block_index, 2);
    assert_eq!(
        table.l1_block,
        PageMapping { paddr: 0x8000_0000, flags: 7 }
    );
    assert_eq!(table.l2.len(), 512);
    assert_eq!(table.l2[0], PageMapping { paddr: 0, flags: 7 });
    assert_eq!(table.l2[127], PageMapping { paddr: 127 << 21, flags: 7 });
    assert_eq!(table.l2[128], PageMapping { paddr: 0x1000_0000, flags: 19 });
    assert_eq!(table.l2[511], PageMapping { paddr: 511 << 21, flags: 19 });
    let flags = ax_page_table_entry::MappingFlags::READ
        | ax_page_table_entry::MappingFlags::WRITE
        | ax_page_table_entry::MappingFlags::DEVICE;
    assert_eq!(table.l2[128].flags, flags.bits());
}

fn system_table(signature: u64, entries: u64, tables: u64) -> EfiSystemTable {
    EfiSystemTable {
        header: EfiTableHeader {
            signature,
            revision: 0,
            header_size: 0,
            crc32: 0,
            reserved: 0,
        },
        number_of_table_entries: entries,
        configuration_table: tables,
    }
}

#[test]
fn device_tree_is_found_by_its_identifier() {
    let guid = [
        0xd5, 0x21, 0xb6, 0xb1, 0x9c, 0xf1, 0xa5, 0x41, 0x83, 0x0b, 0xd9, 0x15, 0x2c, 0x69, 0xaa,
        0xe0,
    ];
    let mut other = guid;
    other[15] = 0;
    let entry = |vendor_guid, vendor_table| EfiConfigurationTable {
        vendor_guid,
        vendor_table,
    };
    let tables = [entry(other, 1), entry(guid, 0x10_0000), entry(guid, 3)];

    let genuine = system_table(EFI_SYSTEM_TABLE_SIGNATURE, 3, 0x2000);
    assert_eq!(
        configuration_tables(&genuine),
        Some(ConfigurationTables { paddr: 0x2000, entries: 3 })
    );
    assert_eq!(configuration_tables(&system_table(1, 3, 0x2000)), None);
    assert_eq!(
        configuration_tables(&system_table(EFI_SYSTEM_TABLE_SIGNATURE, 0, 0x2000)),
        None
    );
    assert_eq!(
        configuration_tables(&system_table(EFI_SYSTEM_TABLE_SIGNATURE, 3, 0)),
        None
    );
    let mut seen = Vec::new();
    let address = loongarch_qemu_fdt_from_systab(Some(genuine), |i| {
        seen.push(i);
        tables[i]
    });
    assert_eq!(address, 0x10_0000);
    assert_eq!(seen, vec![0, 1]);
    assert_eq!(
        loongarch_qemu_fdt_from_systab(
            Some(system_table(EFI_SYSTEM_TABLE_SIGNATURE, 1, 0x2000)),
            |i| tables[i]
        ),
        0
    );
    assert_eq!(loongarch_qemu_fdt_from_systab(None, |i| tables[i]), 0);
    assert_eq!(
        loongarch_qemu_fdt_from_systab(Some(system_table(1, 3, 0x2000)), |i| tables[i]),
        0
    );
}
