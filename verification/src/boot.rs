//! Early mappings of a LoongArch machine and the search for its device tree.

use vstd::prelude::*;

verus! {

/// Number of entries of a page table.
pub const TABLE_ENTRIES: usize = 512;

/// Index of the top-level entry of the boot mapping.
pub const BOOT_L0_INDEX: usize = 0x100;

/// Index of the second-level entry that leads to the third level.
pub const BOOT_L1_TABLE_INDEX: usize = 0;

/// Index of the second-level entry that maps a block.
pub const BOOT_L1_BLOCK_INDEX: usize = 2;

/// First physical address of the block.
pub const BOOT_BLOCK_PADDR: usize = 0x8000_0000;

/// Number of third-level entries that map executable memory.
pub const BOOT_EXECUTABLE_ENTRIES: usize = 128;

/// Bytes that a third-level entry maps.
pub const BOOT_PAGE_SIZE: usize = 0x20_0000;

/// The bits of a set of mapping flags: one for readable, two for writable, four
/// for executable, sixteen for device memory.
pub open spec fn flag_bits(read: bool, write: bool, execute: bool, device: bool) -> int {
    (if read {
        1int
    } else {
        0
    }) + (if write {
        2int
    } else {
        0
    }) + (if execute {
        4int
    } else {
        0
    }) + (if device {
        16int
    } else {
        0
    })
}

/// Builds an `ax_page_table_entry::MappingFlags` from its single flags with
/// `set` and returns its bits. Each flag contributes the bit that the crate
/// defines for it.
#[verifier::external_body]
fn mapping_flags(read: bool, write: bool, execute: bool, device: bool) -> (r: usize)
    ensures
        r == flag_bits(read, write, execute, device),
{
    let mut flags = ax_page_table_entry::MappingFlags::empty();
    flags.set(ax_page_table_entry::MappingFlags::READ, read);
    flags.set(ax_page_table_entry::MappingFlags::WRITE, write);
    flags.set(ax_page_table_entry::MappingFlags::EXECUTE, execute);
    flags.set(ax_page_table_entry::MappingFlags::DEVICE, device);
    flags.bits()
}

/// A mapping of a huge page.
#[derive(Clone, Copy, Debug, PartialEq, Eq, Structural)]
pub struct PageMapping {
    /// First physical address.
    pub paddr: usize,
    /// Bits of the mapping flags.
    pub flags: usize,
}

/// The page tables that a machine boots with: a top-level entry that leads to
/// the second level, a second-level entry that leads to the third level, a
/// second-level entry that maps a block, and the entries of the third level.
pub struct BootPageTable {
    /// Index of the top-level entry.
    pub l0_index: usize,
    /// Index of the second-level entry that leads to the third level.
    pub l1_table_index: usize,
    /// Index of the second-level entry that maps a block.
    pub l1_block_index: usize,
    /// The block.
    pub l1_block: PageMapping,
    /// The third level.
    pub l2: [PageMapping; 512],
}

/// The third-level entry of that index: it maps its own address, as memory that
/// can be executed up to a limit and as device memory beyond.
pub open spec fn l2_mapping(i: int) -> PageMapping {
    PageMapping {
        paddr: (i * BOOT_PAGE_SIZE) as usize,
        flags: flag_bits(
            true,
            true,
            i < BOOT_EXECUTABLE_ENTRIES,
            i >= BOOT_EXECUTABLE_ENTRIES,
        ) as usize,
    }
}

/// Returns the page tables that a machine boots with.
pub fn init_boot_page_table() -> (r: BootPageTable)
    ensures
        r.l0_index == BOOT_L0_INDEX,
        r.l1_table_index == BOOT_L1_TABLE_INDEX,
        r.l1_block_index == BOOT_L1_BLOCK_INDEX,
        r.l1_block == (PageMapping {
            paddr: BOOT_BLOCK_PADDR,
            flags: flag_bits(true, true, true, false) as usize,
        }),
        forall|i: int| 0 <= i < TABLE_ENTRIES ==> #[trigger] r.l2@[i] == l2_mapping(i),
        forall|vaddr: int| #[trigger] translation(r, vaddr) == boot_translation(vaddr),
{
    let mut l2: [PageMapping; 512] = [PageMapping { paddr: 0, flags: 0 }; 512];
    let mut i: usize = 0;
    while i < TABLE_ENTRIES
        invariant
            i <= TABLE_ENTRIES,
            forall|j: int| 0 <= j < i ==> #[trigger] l2@[j] == l2_mapping(j),
        decreases TABLE_ENTRIES - i,
    {
        let executable = i < BOOT_EXECUTABLE_ENTRIES;
        assert(i << 21 == i * 0x20_0000) by (bit_vector)
            requires
                i < 512,
        ;
        l2[i] = PageMapping {
            paddr: i << 21,
            flags: mapping_flags(true, true, executable, !executable),
        };
        i = i + 1;
    }
    let tables = BootPageTable {
        l0_index: BOOT_L0_INDEX,
        l1_table_index: BOOT_L1_TABLE_INDEX,
        l1_block_index: BOOT_L1_BLOCK_INDEX,
        l1_block: PageMapping {
            paddr: BOOT_BLOCK_PADDR,
            flags: mapping_flags(true, true, true, false),
        },
        l2,
    };
    proof {
        assert forall|vaddr: int| #[trigger] translation(tables, vaddr) == boot_translation(
            vaddr,
        ) by {
            law_boot_tables_translate(tables, vaddr);
        }
    }
    tables
}

/// Whether the tables are those that a machine boots with.
pub open spec fn are_boot_tables(tables: BootPageTable) -> bool {
    &&& tables.l0_index == BOOT_L0_INDEX
    &&& tables.l1_table_index == BOOT_L1_TABLE_INDEX
    &&& tables.l1_block_index == BOOT_L1_BLOCK_INDEX
    &&& tables.l1_block == (PageMapping {
        paddr: BOOT_BLOCK_PADDR,
        flags: flag_bits(true, true, true, false) as usize,
    })
    &&& forall|i: int| 0 <= i < TABLE_ENTRIES ==> #[trigger] tables.l2@[i] == l2_mapping(i)
}

/// The physical address and the flags that the tables give to a virtual address:
/// a top-level entry covers 512 gibibytes, a second-level entry one gibibyte, and
/// a third-level entry two mebibytes.
pub open spec fn translation(tables: BootPageTable, vaddr: int) -> Option<(int, int)> {
    let l0 = vaddr / 0x80_0000_0000;
    let l1 = vaddr / 0x4000_0000 % 512;
    let l2 = vaddr / 0x20_0000 % 512;
    if vaddr < 0 || l0 != tables.l0_index {
        None
    } else if l1 == tables.l1_table_index {
        Some((tables.l2@[l2].paddr + vaddr % 0x20_0000, tables.l2@[l2].flags as int))
    } else if l1 == tables.l1_block_index {
        Some((tables.l1_block.paddr + vaddr % 0x4000_0000, tables.l1_block.flags as int))
    } else {
        None
    }
}

/// What a machine needs while it boots: from 0x8000_0000_0000 on, the first and
/// the third gibibyte of physical memory. Memory can be read, written and
/// executed, but for what lies between 256 mebibytes and one gibibyte, which are
/// devices.
pub open spec fn boot_translation(vaddr: int) -> Option<(int, int)> {
    let paddr = vaddr - 0x8000_0000_0000;
    if 0 <= paddr < 0x1000_0000 || 0x8000_0000 <= paddr < 0xc000_0000 {
        Some((paddr, 7))
    } else if 0x1000_0000 <= paddr < 0x4000_0000 {
        Some((paddr, 19))
    } else {
        None
    }
}

/// The boot tables map the first and the third gibibyte, each address to itself
/// above the start of the mapping, and nothing else.
pub proof fn law_boot_tables_translate(tables: BootPageTable, vaddr: int)
    requires
        are_boot_tables(tables),
    ensures
        translation(tables, vaddr) == boot_translation(vaddr),
        ({
            let paddr = vaddr - 0x8000_0000_0000;
            let mapped = translation(tables, vaddr);
            let (to, flags) = mapped->0;
            &&& 0 <= paddr < 0x4000_0000 || 0x8000_0000 <= paddr < 0xc000_0000 <==> mapped is Some
            &&& mapped is Some ==> to == paddr
            &&& mapped is Some && (paddr < 0x1000_0000 || paddr >= 0x8000_0000) ==> flags == 7
            &&& mapped is Some && 0x1000_0000 <= paddr < 0x8000_0000 ==> flags == 19
        }),
{
    let paddr = vaddr - 0x8000_0000_0000;
    if 0 <= paddr < 0x80_0000_0000 {
        assert(vaddr / 0x80_0000_0000 == 0x100);
        assert(vaddr / 0x4000_0000 == 0x2_0000 + paddr / 0x4000_0000);
        assert(vaddr / 0x4000_0000 % 512 == paddr / 0x4000_0000);
        assert(vaddr % 0x4000_0000 == paddr % 0x4000_0000);
        if paddr < 0x4000_0000 {
            let i = paddr / 0x20_0000;
            assert(vaddr / 0x20_0000 == 0x400_0000 + i);
            assert(vaddr / 0x20_0000 % 512 == i);
            assert(vaddr % 0x20_0000 == paddr % 0x20_0000);
            assert(tables.l2@[i] == l2_mapping(i));
        }
    } else if vaddr >= 0 {
        assert(vaddr / 0x80_0000_0000 != 0x100);
    }
}

/// The third level maps every address below one gibibyte to itself.
pub proof fn law_boot_mapping_is_identity(addr: usize)
    requires
        addr < TABLE_ENTRIES * BOOT_PAGE_SIZE,
    ensures
        0 <= addr / BOOT_PAGE_SIZE < TABLE_ENTRIES,
        l2_mapping(addr as int / BOOT_PAGE_SIZE as int).paddr + addr % BOOT_PAGE_SIZE == addr,
{
}

/// Memory that can be executed is not device memory and the other way round.
pub proof fn law_boot_memory_is_code_or_device(i: int)
    requires
        0 <= i < TABLE_ENTRIES,
    ensures
        l2_mapping(i).flags == 7 || l2_mapping(i).flags == 19,
        l2_mapping(i).flags == 7 <==> l2_mapping(i).paddr < 0x1000_0000,
{
}

/// Signature of an EFI system table.
pub const EFI_SYSTEM_TABLE_SIGNATURE: u64 = 0x5453_5953_2049_4249;

/// Header of an EFI table.
#[derive(Clone, Copy, Debug, PartialEq, Eq, Structural)]
pub struct EfiTableHeader {
    /// Signature.
    pub signature: u64,
    /// Revision.
    pub revision: u32,
    /// Size of the header.
    pub header_size: u32,
    /// Checksum.
    pub crc32: u32,
    /// Reserved.
    pub reserved: u32,
}

/// The parts of an EFI system table that lead to the configuration tables.
#[derive(Clone, Copy, Debug, PartialEq, Eq, Structural)]
pub struct EfiSystemTable {
    /// Header.
    pub header: EfiTableHeader,
    /// Number of configuration tables.
    pub number_of_table_entries: u64,
    /// Physical address of the configuration tables.
    pub configuration_table: u64,
}

/// An EFI configuration table.
#[derive(Clone, Copy, Debug)]
pub struct EfiConfigurationTable {
    /// Identifier of the table.
    pub vendor_guid: [u8; 16],
    /// Physical address of the table.
    pub vendor_table: u64,
}

/// Where the configuration tables stand.
#[derive(Clone, Copy, Debug, PartialEq, Eq, Structural)]
pub struct ConfigurationTables {
    /// Physical address of the first.
    pub paddr: usize,
    /// Their number.
    pub entries: usize,
}

/// The identifier of a device tree.
pub open spec fn device_tree_guid() -> Seq<u8> {
    seq![
        0xd5u8,
        0x21,
        0xb6,
        0xb1,
        0x9c,
        0xf1,
        0xa5,
        0x41,
        0x83,
        0x0b,
        0xd9,
        0x15,
        0x2c,
        0x69,
        0xaa,
        0xe0,
    ]
}

/// Where the configuration tables stand, if the system table is genuine and
/// names any.
pub open spec fn tables_of(table: EfiSystemTable) -> Option<ConfigurationTables> {
    if table.header.signature != EFI_SYSTEM_TABLE_SIGNATURE
        || table.number_of_table_entries as usize == 0 || table.configuration_table as usize == 0 {
        None
    } else {
        Some(
            ConfigurationTables {
                paddr: table.configuration_table as usize,
                entries: table.number_of_table_entries as usize,
            },
        )
    }
}

/// Finds the configuration tables of a system table.
pub fn configuration_tables(table: &EfiSystemTable) -> (r: Option<ConfigurationTables>)
    ensures
        r == tables_of(*table),
{
    if table.header.signature != EFI_SYSTEM_TABLE_SIGNATURE {
        return None;
    }
    let entries: usize = table.number_of_table_entries as usize;
    let paddr: usize = table.configuration_table as usize;
    if entries == 0 || paddr == 0 {
        return None;
    }
    Some(ConfigurationTables { paddr, entries })
}

/// Whether the table is a device tree.
pub open spec fn names_device_tree(table: EfiConfigurationTable) -> bool {
    table.vendor_guid@ == device_tree_guid()
}

/// Whether a search through `entries` configuration tables that looked at
/// `seen`, in order, may end with `r`: it ends with the address of the first
/// device tree, or with zero after the last table.
pub open spec fn search_ended(seen: Seq<EfiConfigurationTable>, entries: int, r: usize) -> bool {
    &&& seen.len() <= entries
    &&& forall|i: int| 0 <= i < seen.len() - 1 ==> !names_device_tree(#[trigger] seen[i])
    &&& if seen.len() > 0 && names_device_tree(seen.last()) {
        r == seen.last().vendor_table as usize
    } else {
        seen.len() == entries && r == 0
    }
}

/// Whether the tables are what `read` returned, by index.
pub open spec fn read_with<F: FnMut(usize) -> EfiConfigurationTable>(
    seen: Seq<EfiConfigurationTable>,
    read: F,
) -> bool {
    forall|i: int| 0 <= i < seen.len() ==> call_ensures(read, (i as usize,), #[trigger] seen[i])
}

fn is_device_tree(guid: &[u8; 16]) -> (r: bool)
    ensures
        r == (guid@ == device_tree_guid()),
{
    let expected: [u8; 16] = [
        0xd5,
        0x21,
        0xb6,
        0xb1,
        0x9c,
        0xf1,
        0xa5,
        0x41,
        0x83,
        0x0b,
        0xd9,
        0x15,
        0x2c,
        0x69,
        0xaa,
        0xe0,
    ];
    assert(expected@ =~= device_tree_guid());
    let mut i: usize = 0;
    while i < 16
        invariant
            i <= 16,
            expected@ == device_tree_guid(),
            forall|j: int| 0 <= j < i ==> guid@[j] == #[trigger] expected@[j],
        decreases 16 - i,
    {
        if guid[i] != expected[i] {
            assert(guid@[i as int] != expected@[i as int]);
            return false;
        }
        i = i + 1;
    }
    assert(guid@ =~= expected@);
    true
}

fn find_device_tree<F: FnMut(usize) -> EfiConfigurationTable>(entries: usize, read: F) -> (r: usize)
    requires
        forall|i: usize| i < entries ==> #[trigger] call_requires(read, (i,)),
    ensures
        exists|seen: Seq<EfiConfigurationTable>|
            #[trigger] search_ended(seen, entries as int, r) && read_with(seen, read),
{
    let ghost start = read;
    let mut call = read;
    let ghost mut seen: Seq<EfiConfigurationTable> = Seq::empty();
    let mut i: usize = 0;
    while i < entries
        invariant
            call == start,
            start == read,
            forall|i: usize| i < entries ==> #[trigger] call_requires(start, (i,)),
            i <= entries,
            seen.len() == i,
            forall|j: int| 0 <= j < i ==> !names_device_tree(#[trigger] seen[j]),
            read_with(seen, start),
        decreases entries - i,
    {
        let table = call(i);
        proof {
            seen = seen.push(table);
        }
        if is_device_tree(&table.vendor_guid) {
            assert(search_ended(seen, entries as int, table.vendor_table as usize));
            return table.vendor_table as usize;
        }
        i = i + 1;
    }
    assert(search_ended(seen, entries as int, 0));
    0
}

/// Returns the address of the device tree that a system table leads to, or
/// zero: there has to be a genuine system table that names configuration
/// tables, one of which is a device tree. `read` fetches a configuration table
/// by its index.
pub fn loongarch_qemu_fdt_from_systab<F: FnMut(usize) -> EfiConfigurationTable>(
    system_table: Option<EfiSystemTable>,
    read: F,
) -> (r: usize)
    requires
        forall|i: usize|
            system_table is Some && tables_of(system_table->0) is Some && i < tables_of(
                system_table->0,
            )->0.entries ==> #[trigger] call_requires(read, (i,)),
    ensures
        if system_table is Some && tables_of(system_table->0) is Some {
            exists|seen: Seq<EfiConfigurationTable>|
                #[trigger] search_ended(seen, tables_of(system_table->0)->0.entries as int, r)
                    && read_with(seen, read)
        } else {
            r == 0
        },
{
    match system_table {
        Some(table) => match configuration_tables(&table) {
            Some(tables) => find_device_tree(tables.entries, read),
            None => 0,
        },
        None => 0,
    }
}

/// A search that looks at the same tables ends with the same address.
pub proof fn law_search_is_determined(
    tables: Seq<EfiConfigurationTable>,
    a: Seq<EfiConfigurationTable>,
    b: Seq<EfiConfigurationTable>,
    r: usize,
    s: usize,
)
    requires
        a.is_prefix_of(tables),
        b.is_prefix_of(tables),
        search_ended(a, tables.len() as int, r),
        search_ended(b, tables.len() as int, s),
    ensures
        r == s,
{
    if a.len() < b.len() {
        assert(b[a.len() - 1] == a[a.len() - 1]);
    }
    if b.len() < a.len() {
        assert(a[b.len() - 1] == b[b.len() - 1]);
    }
}

/// A system table leads to configuration tables exactly when its signature is
/// that of a system table and it names at least one table at an address.
pub proof fn law_system_table_names_its_tables(table: EfiSystemTable)
    ensures
        ({
            let entries = table.number_of_table_entries as usize;
            let paddr = table.configuration_table as usize;
            let r = tables_of(table);
            &&& r is Some <==> table.header.signature == 0x5453_5953_2049_4249 && entries != 0
                && paddr != 0
            &&& r is Some ==> r->0.entries == entries && r->0.paddr == paddr
        }),
{
}

/// Whether the identifier is that of a device tree, byte by byte.
pub open spec fn is_device_tree_guid(guid: Seq<u8>) -> bool {
    &&& guid.len() == 16
    &&& guid[0] == 0xd5 && guid[1] == 0x21 && guid[2] == 0xb6 && guid[3] == 0xb1
    &&& guid[4] == 0x9c && guid[5] == 0xf1 && guid[6] == 0xa5 && guid[7] == 0x41
    &&& guid[8] == 0x83 && guid[9] == 0x0b && guid[10] == 0xd9 && guid[11] == 0x15
    &&& guid[12] == 0x2c && guid[13] == 0x69 && guid[14] == 0xaa && guid[15] == 0xe0
}

/// The search returns the address of the first device tree among the tables, and
/// zero where there is none.
pub proof fn law_search_returns_the_first_device_tree(
    tables: Seq<EfiConfigurationTable>,
    seen: Seq<EfiConfigurationTable>,
    r: usize,
    n: int,
)
    requires
        seen.is_prefix_of(tables),
        search_ended(seen, tables.len() as int, r),
        0 <= n <= tables.len(),
        forall|i: int|
            0 <= i < n ==> !is_device_tree_guid((#[trigger] tables[i]).vendor_guid@),
        n < tables.len() ==> is_device_tree_guid(tables[n].vendor_guid@),
    ensures
        r == (if n < tables.len() {
            tables[n].vendor_table as usize
        } else {
            0
        }),
{
    assert forall|i: int| 0 <= i < tables.len() implies names_device_tree(#[trigger] tables[i])
        == is_device_tree_guid(tables[i].vendor_guid@) by {
        if is_device_tree_guid(tables[i].vendor_guid@) {
            assert(tables[i].vendor_guid@ =~= device_tree_guid());
        }
    }
    if seen.len() > 0 {
        assert(seen.last() == tables[seen.len() - 1]);
    }
    if n < tables.len() && n < seen.len() {
        assert(seen[n] == tables[n]);
    }
}

} // verus!
