//! The descriptor table and the page tables that a guest starts with, and
//! the walk through page tables that translates the guest's addresses.

use vstd::prelude::*;
use crate::consts::{BOOT_GDT, BOOT_PDE, BOOT_PDPTE, BOOT_PML4, LARGE_PAGE_SIZE};
use crate::mem::{
    in_bounds, lemma_load_apart, lemma_store, lemma_word_round_trip, read_u64, u64_at, write_u64,
};
use vstd::bytes::{lemma_auto_spec_u64_to_from_le_bytes, spec_u64_to_le_bytes};

verus! {

/// Flag of a page table entry that maps something.
pub const PRESENT: u64 = 1;

/// Flag of a page table entry whose memory may be written.
pub const WRITABLE: u64 = 0x2;

/// Flag of a page directory entry that maps a large page itself.
pub const HUGE_PAGE: u64 = 0x80;

/// The bits of a page table entry that hold the address of a table or of a
/// small page.
pub const ADDRESS_MASK: u64 = 0x000f_ffff_ffff_f000;

/// The bits of a page directory entry that hold the address of a large page.
pub const LARGE_ADDRESS_MASK: u64 = 0x000f_ffff_ffe0_0000;

/// Flags of the code segment: present, ring 0, executable and readable,
/// 64-bit, limit in pages.
pub const GDT_CODE_FLAGS: u64 = 0xA09B;

/// Flags of the data segment: present, ring 0, writable, limit in pages.
pub const GDT_DATA_FLAGS: u64 = 0xC093;

/// Limit of a flat segment.
pub const GDT_FLAT_LIMIT: u64 = 0xFFFFF;

/// Size of the guest memory that the first tables take up: they end with the
/// page directory.
pub const BOOT_TABLES_END: u64 = 0x13000;

/// Size of the address space that the initial page tables map.
pub const IDENTITY_MAPPED: u64 = 0x4000_0000;

/// The segment descriptor with the given flags, base and limit.
pub open spec fn gdt_entry(flags: u64, base: u64, limit: u64) -> u64 {
    ((base & 0xff000000u64) << 32u64) | ((flags & 0x0000f0ffu64) << 40u64) | ((limit
        & 0x000f0000u64) << 32u64) | ((base & 0x00ffffffu64) << 16u64) | (limit & 0x0000ffffu64)
}

/// Packs flags, base and limit of a segment into its descriptor.
pub fn create_gdt_entry(flags: u64, base: u64, limit: u64) -> (r: u64)
    ensures
        r == gdt_entry(flags, base, limit),
{
    ((base & 0xff000000u64) << 32u64) | ((flags & 0x0000f0ffu64) << 40u64) | ((limit
        & 0x000f0000u64) << 32u64) | ((base & 0x00ffffffu64) << 16u64) | (limit & 0x0000ffffu64)
}

/// The three descriptors of the initial table: the null descriptor, then the
/// flat code and the flat data segment of ring 0.
pub proof fn lemma_boot_descriptors()
    ensures
        gdt_entry(0, 0, 0) == 0,
        gdt_entry(GDT_CODE_FLAGS, 0, GDT_FLAT_LIMIT) == 0x00AF_9B00_0000_FFFF,
        gdt_entry(GDT_DATA_FLAGS, 0, GDT_FLAT_LIMIT) == 0x00CF_9300_0000_FFFF,
{
    assert(gdt_entry(0, 0, 0) == 0) by (bit_vector);
    assert(gdt_entry(0xA09B, 0, 0xFFFFF) == 0x00AF_9B00_0000_FFFF) by (bit_vector);
    assert(gdt_entry(0xC093, 0, 0xFFFFF) == 0x00CF_9300_0000_FFFF) by (bit_vector);
}

/// The page table entry that maps `addr` with `flags`.
pub open spec fn table_entry(addr: u64, flags: u64) -> u64 {
    addr | flags
}

/// The entry `i` of the initial page directory: the large page `i`, mapped to
/// itself, present and writable.
pub open spec fn directory_entry(i: int) -> u64 {
    table_entry((i * LARGE_PAGE_SIZE) as u64, PRESENT | WRITABLE | HUGE_PAGE)
}

/// Whether the byte at `addr` belongs to a word that `init_guest_mem` writes.
pub open spec fn is_boot_table_byte(addr: int) -> bool {
    ||| BOOT_GDT <= addr < BOOT_GDT + 24
    ||| BOOT_PML4 <= addr < BOOT_PML4 + 8
    ||| BOOT_PML4 + 511 * 8 <= addr < BOOT_PML4 + 512 * 8
    ||| BOOT_PDPTE <= addr < BOOT_PDPTE + 8
    ||| BOOT_PDE <= addr < BOOT_PDE + 512 * 8
}

/// Whether `mem` holds the initial descriptor table and the initial page
/// tables, which map the first GiB to itself in large pages.
pub open spec fn has_boot_tables(mem: Seq<u8>) -> bool {
    &&& mem.len() >= BOOT_TABLES_END
    &&& u64_at(mem, BOOT_GDT as int) == gdt_entry(0, 0, 0)
    &&& u64_at(mem, BOOT_GDT + 8) == gdt_entry(GDT_CODE_FLAGS, 0, GDT_FLAT_LIMIT)
    &&& u64_at(mem, BOOT_GDT + 16) == gdt_entry(GDT_DATA_FLAGS, 0, GDT_FLAT_LIMIT)
    &&& u64_at(mem, BOOT_PML4 as int) == table_entry(BOOT_PDPTE, PRESENT | WRITABLE)
    &&& u64_at(mem, BOOT_PML4 + 511 * 8) == table_entry(BOOT_PML4, PRESENT | WRITABLE)
    &&& u64_at(mem, BOOT_PDPTE as int) == table_entry(BOOT_PDE, PRESENT | WRITABLE)
    &&& forall|i: int| 0 <= i < 512 ==> u64_at(mem, BOOT_PDE + 8 * i) == #[trigger] directory_entry(i)
}

/// Stores one word of the initial tables.
fn set_word(mem: &mut [u8], addr: u64, value: u64)
    requires
        old(mem)@.len() >= BOOT_TABLES_END,
        BOOT_GDT <= addr,
        addr + 8 <= BOOT_TABLES_END,
    ensures
        final(mem)@.len() == old(mem)@.len(),
        u64_at(final(mem)@, addr as int) == value,
        forall|at: int|
            (0 <= at && at + 8 <= addr) || (addr + 8 <= at && at + 8 <= old(mem)@.len()) ==> u64_at(
                final(mem)@,
                at,
            ) == #[trigger] u64_at(old(mem)@, at),
        forall|i: int|
            0 <= i < old(mem)@.len() && !(addr <= i < addr + 8) ==> final(mem)@[i] == old(mem)@[i],
{
    write_u64(mem, addr as usize, value);
    proof {
        lemma_auto_spec_u64_to_from_le_bytes();
        lemma_word_round_trip(old(mem)@, addr as int);
        lemma_store(old(mem)@, addr as int, spec_u64_to_le_bytes(value));
        assert forall|at: int|
            (0 <= at && at + 8 <= addr) || (addr + 8 <= at && at + 8 <= old(mem)@.len()) implies u64_at(
            mem@,
            at,
        ) == #[trigger] u64_at(old(mem)@, at) by {
            lemma_load_apart(old(mem)@, addr as int, spec_u64_to_le_bytes(value), at, 8);
        }
    }
}

/// Writes the initial descriptor table and the initial page tables: one
/// top-level table that points to one pointer table and to itself, one
/// pointer table that points to one directory, and a directory of 512 large
/// pages that maps the first GiB to itself. The tables are otherwise left as
/// they are: fresh guest memory is clear.
pub fn init_guest_mem(mem: &mut [u8])
    requires
        old(mem)@.len() >= BOOT_TABLES_END,
    ensures
        final(mem)@.len() == old(mem)@.len(),
        has_boot_tables(final(mem)@),
        forall|i: int|
            0 <= i < old(mem)@.len() && !is_boot_table_byte(i) ==> final(mem)@[i] == old(mem)@[i],
{
    set_word(mem, BOOT_GDT, create_gdt_entry(0, 0, 0));
    set_word(mem, BOOT_GDT + 8, create_gdt_entry(GDT_CODE_FLAGS, 0, GDT_FLAT_LIMIT));
    set_word(mem, BOOT_GDT + 16, create_gdt_entry(GDT_DATA_FLAGS, 0, GDT_FLAT_LIMIT));
    set_word(mem, BOOT_PML4, BOOT_PDPTE | (PRESENT | WRITABLE));
    set_word(mem, BOOT_PML4 + 511 * 8, BOOT_PML4 | (PRESENT | WRITABLE));
    set_word(mem, BOOT_PDPTE, BOOT_PDE | (PRESENT | WRITABLE));
    let mut i: u64 = 0;
    while i < 512
        invariant
            i <= 512,
            mem@.len() == old(mem)@.len(),
            mem@.len() >= BOOT_TABLES_END,
            u64_at(mem@, BOOT_GDT as int) == gdt_entry(0, 0, 0),
            u64_at(mem@, BOOT_GDT + 8) == gdt_entry(GDT_CODE_FLAGS, 0, GDT_FLAT_LIMIT),
            u64_at(mem@, BOOT_GDT + 16) == gdt_entry(GDT_DATA_FLAGS, 0, GDT_FLAT_LIMIT),
            u64_at(mem@, BOOT_PML4 as int) == table_entry(BOOT_PDPTE, PRESENT | WRITABLE),
            u64_at(mem@, BOOT_PML4 + 511 * 8) == table_entry(BOOT_PML4, PRESENT | WRITABLE),
            u64_at(mem@, BOOT_PDPTE as int) == table_entry(BOOT_PDE, PRESENT | WRITABLE),
            forall|j: int| 0 <= j < i ==> u64_at(mem@, BOOT_PDE + 8 * j) == #[trigger] directory_entry(j),
            forall|k: int|
                0 <= k < old(mem)@.len() && !is_boot_table_byte(k) ==> mem@[k] == old(mem)@[k],
        decreases 512 - i,
    {
        let ghost before = mem@;
        set_word(mem, BOOT_PDE + 8 * i, (i * LARGE_PAGE_SIZE) | (PRESENT | WRITABLE | HUGE_PAGE));
        proof {
            assert forall|j: int| 0 <= j < i + 1 implies u64_at(mem@, BOOT_PDE + 8 * j)
                == #[trigger] directory_entry(j) by {
                if j < i {
                    assert(u64_at(mem@, BOOT_PDE + 8 * j) == u64_at(before, BOOT_PDE + 8 * j));
                }
            }
        }
        i += 1;
    }
}

/// The entry `index` of the page table at `table`, if it lies inside the
/// memory.
pub open spec fn entry_at(mem: Seq<u8>, table: u64, index: u64) -> Option<u64> {
    if in_bounds(mem.len(), table + 8 * index, 8) {
        Some(u64_at(mem, table + 8 * index))
    } else {
        None
    }
}

/// The index into the table of the level that `shift` stands for, taken
/// from the virtual address `addr`.
pub open spec fn table_index(addr: u64, shift: u64) -> u64 {
    (addr >> shift) & 0x1ff
}

/// The table or page that a present entry points to.
pub open spec fn next_table(entry: Option<u64>) -> Option<u64> {
    match entry {
        Some(entry) => if entry & PRESENT != 0 {
            Some(entry & ADDRESS_MASK)
        } else {
            None
        },
        None => None,
    }
}

/// The guest physical address that the page tables in `mem`, rooted at
/// `BOOT_PML4`, give to the virtual address `addr`: four levels, of which the
/// third may map a large page itself. Nothing where an entry on the way is
/// not present or lies outside the memory.
pub open spec fn translate(mem: Seq<u8>, addr: u64) -> Option<u64> {
    match next_table(entry_at(mem, BOOT_PML4, table_index(addr, 39))) {
        None => None,
        Some(pointers) => match next_table(entry_at(mem, pointers, table_index(addr, 30))) {
            None => None,
            Some(directory) => {
                let entry = entry_at(mem, directory, table_index(addr, 21));
                match next_table(entry) {
                    None => None,
                    Some(table) => if entry.unwrap() & HUGE_PAGE != 0 {
                        Some((entry.unwrap() & LARGE_ADDRESS_MASK) | (addr & 0x1f_ffff))
                    } else {
                        match next_table(entry_at(mem, table, table_index(addr, 12))) {
                            None => None,
                            Some(page) => Some(page | (addr & 0xfff)),
                        }
                    },
                }
            },
        }
    }
}

/// Reads the entry `index` of the page table at `table`.
fn read_entry(mem: &[u8], table: u64, index: u64) -> (r: Option<u64>)
    requires
        table <= ADDRESS_MASK,
        index < 512,
    ensures
        r == entry_at(mem@, table, index),
{
    let size = mem.len() as u64;
    let at = table + 8 * index;
    if at <= size && size - at >= 8 {
        Some(read_u64(mem, at as usize))
    } else {
        None
    }
}

/// Follows a present entry to the table or page that it points to.
fn follow(entry: Option<u64>) -> (r: Option<u64>)
    ensures
        r == next_table(entry),
        r matches Some(table) ==> table <= ADDRESS_MASK,
{
    match entry {
        Some(entry) => if entry & PRESENT != 0 {
            assert(entry & ADDRESS_MASK <= ADDRESS_MASK) by (bit_vector);
            Some(entry & ADDRESS_MASK)
        } else {
            None
        },
        None => None,
    }
}

/// The index into the table of one level.
fn index_of(addr: u64, shift: u64) -> (r: u64)
    requires
        shift < 64,
    ensures
        r == table_index(addr, shift),
        r < 512,
{
    assert((addr >> shift) & 0x1ff < 512) by (bit_vector);
    (addr >> shift) & 0x1ff
}

/// Looks up the guest's page tables and translates a virtual address of the
/// guest to a physical one.
pub fn virt_to_phys(mem: &[u8], addr: u64) -> (r: Option<u64>)
    ensures
        r == translate(mem@, addr),
{
    let pointers = match follow(read_entry(mem, BOOT_PML4, index_of(addr, 39))) {
        Some(pointers) => pointers,
        None => {
            return None;
        },
    };
    let directory = match follow(read_entry(mem, pointers, index_of(addr, 30))) {
        Some(directory) => directory,
        None => {
            return None;
        },
    };
    let entry = read_entry(mem, directory, index_of(addr, 21));
    let table = match follow(entry) {
        Some(table) => table,
        None => {
            return None;
        },
    };
    let entry = entry.unwrap();
    if entry & HUGE_PAGE != 0 {
        return Some((entry & LARGE_ADDRESS_MASK) | (addr & 0x1f_ffff));
    }
    match follow(read_entry(mem, table, index_of(addr, 12))) {
        Some(page) => Some(page | (addr & 0xfff)),
        None => None,
    }
}

/// Under the initial page tables every address of the first GiB is its own
/// physical address.
pub proof fn lemma_identity_mapping(mem: Seq<u8>, addr: u64)
    requires
        has_boot_tables(mem),
        addr < IDENTITY_MAPPED,
    ensures
        translate(mem, addr) == Some(addr),
{
    let i = table_index(addr, 21);
    assert(table_index(addr, 39) == 0 && table_index(addr, 30) == 0 && i < 512 && i == addr >> 21)
        by (bit_vector)
        requires
            addr < 0x4000_0000,
            i == (addr >> 21) & 0x1ff,
    ;
    assert((0x11000u64 | 3) & 1 != 0 && (0x11000u64 | 3) & 0x000f_ffff_ffff_f000 == 0x11000)
        by (bit_vector);
    assert((0x12000u64 | 3) & 1 != 0 && (0x12000u64 | 3) & 0x000f_ffff_ffff_f000 == 0x12000)
        by (bit_vector);
    assert(PRESENT | WRITABLE == 3) by (bit_vector);
    assert(PRESENT | WRITABLE | HUGE_PAGE == 0x83) by (bit_vector);
    let entry = directory_entry(i as int);
    assert(i * LARGE_PAGE_SIZE == (i * 0x20_0000) as u64);
    assert(entry == ((i * 0x20_0000) as u64) | 0x83);
    assert({
        let e = ((i * 0x20_0000) as u64) | 0x83;
        &&& e & 1 != 0
        &&& e & 0x80 != 0
        &&& (e & 0x000f_ffff_ffe0_0000) | (addr & 0x1f_ffff) == addr
    }) by (bit_vector)
        requires
            addr < 0x4000_0000,
            i == addr >> 21,
    ;
    assert(u64_at(mem, BOOT_PDE + 8 * (i as int)) == directory_entry(i as int));
    assert(entry_at(mem, BOOT_PML4, 0) == Some(table_entry(BOOT_PDPTE, PRESENT | WRITABLE)));
    assert(next_table(entry_at(mem, BOOT_PML4, 0)) == Some(BOOT_PDPTE));
    assert(entry_at(mem, BOOT_PDPTE, 0) == Some(table_entry(BOOT_PDE, PRESENT | WRITABLE)));
    assert(next_table(entry_at(mem, BOOT_PDPTE, 0)) == Some(BOOT_PDE));
    assert(entry_at(mem, BOOT_PDE, i) == Some(entry));
    assert(next_table(entry_at(mem, BOOT_PDE, i)) is Some);
    assert(entry & HUGE_PAGE != 0);
    assert((entry & LARGE_ADDRESS_MASK) | (addr & 0x1f_ffff) == addr);
}

/// The host address of the guest physical address `addr` in a guest memory
/// that the host sees from `vm_start` on. The second memory slot lies as far
/// above the first on the host as it does in the guest, so one offset serves
/// both.
pub open spec fn host_address_of(vm_start: usize, addr: usize) -> int {
    vm_start + addr
}

/// Once the initial tables are written, the host address of what a virtual
/// address of the first GiB translates to lies that address above the start
/// of the guest memory.
pub proof fn lemma_host_address_of_identity(mem: Seq<u8>, vm_start: usize, addr: u64)
    requires
        has_boot_tables(mem),
        addr < IDENTITY_MAPPED,
    ensures
        translate(mem, addr) matches Some(phys) && host_address_of(vm_start, phys as usize)
            == vm_start + addr,
{
    lemma_identity_mapping(mem, addr);
}

/// The initial tables map what they should: the first and the last entry of
/// the top-level table are present and writable, and entry `i` of the
/// directory maps the large page `i` to itself.
pub proof fn lemma_boot_tables(mem: Seq<u8>, i: int)
    requires
        has_boot_tables(mem),
        0 <= i < 512,
    ensures
        u64_at(mem, BOOT_PML4 as int) & (PRESENT | WRITABLE) == PRESENT | WRITABLE,
        u64_at(mem, BOOT_PML4 + 511 * 8) & (PRESENT | WRITABLE) == PRESENT | WRITABLE,
        u64_at(mem, BOOT_PML4 as int) & ADDRESS_MASK == BOOT_PDPTE,
        u64_at(mem, BOOT_PML4 + 511 * 8) & ADDRESS_MASK == BOOT_PML4,
        u64_at(mem, BOOT_PDE + 8 * i) & HUGE_PAGE == HUGE_PAGE,
        u64_at(mem, BOOT_PDE + 8 * i) & (PRESENT | WRITABLE) == PRESENT | WRITABLE,
        u64_at(mem, BOOT_PDE + 8 * i) & LARGE_ADDRESS_MASK == i * LARGE_PAGE_SIZE,
{
    assert(PRESENT | WRITABLE == 3 && HUGE_PAGE == 0x80 && PRESENT | WRITABLE | HUGE_PAGE == 0x83)
        by (bit_vector);
    assert((0x11000u64 | 3) & 3 == 3 && (0x11000u64 | 3) & 0x000f_ffff_ffff_f000 == 0x11000)
        by (bit_vector);
    assert((0x10000u64 | 3) & 3 == 3 && (0x10000u64 | 3) & 0x000f_ffff_ffff_f000 == 0x10000)
        by (bit_vector);
    let page = (i * LARGE_PAGE_SIZE) as u64;
    assert(directory_entry(i) == page | (PRESENT | WRITABLE | HUGE_PAGE));
    let j = i as u64;
    assert(page == j * 0x20_0000);
    assert({
        let e = ((j * 0x20_0000) as u64) | 0x83;
        &&& e & 0x80 == 0x80
        &&& e & 3 == 3
        &&& e & 0x000f_ffff_ffe0_0000 == j * 0x20_0000
    }) by (bit_vector)
        requires
            j < 512,
    ;
}

} // verus!
