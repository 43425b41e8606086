use uhyve::consts::{BOOT_GDT, BOOT_PDE, BOOT_PDPTE, BOOT_PML4};
use uhyve::mem::{
    copy_into, fill_zero, read_bytes, read_c_string, read_i32, read_i64, read_u16, read_u32,
    read_u64, write_i32, write_i64, write_u16, write_u32, write_u64,
};
use uhyve::paging::{create_gdt_entry, init_guest_mem, virt_to_phys, HUGE_PAGE, PRESENT, WRITABLE};
use uhyve::vcpu::UhyveCPU;
use uhyve::vm::VirtualCPU;

fn word(guest: &[u8], at: u64) -> u64 {
    u64::from_le_bytes(guest[at as usize..at as usize + 8].try_into().unwrap())
}

fn tables() -> Vec<u8> {
    let mut guest = vec![0u8; 0x20_0000];
    init_guest_mem(&mut guest);
    guest
}

#[test]
fn descriptors_of_flat_segments() {
    assert_eq!(create_gdt_entry(0, 0, 0), 0);
    assert_eq!(create_gdt_entry(0xA09B, 0, 0xFFFFF), 0x00AF_9B00_0000_FFFF);
    assert_eq!(create_gdt_entry(0xC093, 0, 0xFFFFF), 0x00CF_9300_0000_FFFF);
    assert_eq!(create_gdt_entry(0xFFFF, 0x1234_5678, 0xABCDE), 0x12FA_FF34_5678_BCDE);
}

#[test]
fn initial_descriptor_table() {
    let guest = tables();
    assert_eq!(BOOT_GDT, 0x1000);
    assert_eq!(word(&guest, 0x1000), 0);
    assert_eq!(word(&guest, 0x1008), 0x00AF_9B00_0000_FFFF);
    assert_eq!(word(&guest, 0x1010), 0x00CF_9300_0000_FFFF);
    assert_eq!(word(&guest, 0x1018), 0);
}

#[test]
fn initial_page_tables() {
    let guest = tables();
    assert_eq!(word(&guest, BOOT_PML4), BOOT_PDPTE | PRESENT | WRITABLE);
    assert_eq!(word(&guest, BOOT_PML4), 0x11003);
    assert_eq!(word(&guest, BOOT_PML4 + 511 * 8), 0x10003);
    assert_eq!(word(&guest, BOOT_PML4 + 8), 0);
    assert_eq!(word(&guest, BOOT_PDPTE), 0x12003);
    assert_eq!(word(&guest, BOOT_PDPTE + 8), 0);
    for i in 0..512u64 {
        let entry = word(&guest, BOOT_PDE + 8 * i);
        assert_eq!(entry, i * 0x20_0000 | PRESENT | WRITABLE | HUGE_PAGE);
        assert_eq!(entry & 0x000f_ffff_ffe0_0000, i * 2 * 1024 * 1024);
        assert_eq!(entry & 0xfff, 0x83);
    }
    assert_eq!(word(&guest, BOOT_PDE + 511 * 8), 0x3fe0_0083);
}

#[test]
fn tables_leave_the_rest_of_the_memory_alone() {
    let mut guest = vec![0xaau8; 0x14000];
    init_guest_mem(&mut guest);
    assert!(guest[..0x1000].iter().all(|byte| *byte == 0xaa));
    assert!(guest[0x1018..0x10000].iter().all(|byte| *byte == 0xaa));
    assert!(guest[0x10008..0x10ff8].iter().all(|byte| *byte == 0xaa));
    assert!(guest[0x11008..0x12000].iter().all(|byte| *byte == 0xaa));
    assert!(guest[0x13000..].iter().all(|byte| *byte == 0xaa));
    assert_eq!(word(&guest, 0x12ff8), 0x3fe0_0083);
}

#[test]
fn first_gib_is_mapped_to_itself() {
    let guest = tables();
    for addr in [0u64, 1, 0xfff, 0x1000, 0x9000, 0x20_0000, 0x40_1000, 0x1234_5678, 0x3fff_ffff] {
        assert_eq!(virt_to_phys(&guest, addr), Some(addr));
    }
}

#[test]
fn addresses_beyond_the_first_gib_are_not_mapped() {
    let guest = tables();
    assert_eq!(virt_to_phys(&guest, 0x4000_0000), None);
    assert_eq!(virt_to_phys(&guest, 0x80_0000_0000), None);
    assert_eq!(virt_to_phys(&guest, 0x7fff_ffff_f000), None);
    assert_eq!(virt_to_phys(&vec![0u8; 0x20_0000], 0x1000), None);
    assert_eq!(virt_to_phys(&[], 0x1000), None);
}

#[test]
fn last_entry_of_the_top_table_leads_back_to_it() {
    let guest = tables();
    assert_eq!(virt_to_phys(&guest, 0xffff_ff80_0000_0000), Some(0));
    assert_eq!(virt_to_phys(&guest, 0xffff_ff80_0000_3234), Some(0x60_0234));
    assert_eq!(virt_to_phys(&guest, 0xffff_ff80_0040_1234), None);
    assert_eq!(virt_to_phys(&guest, 0xffff_ffff_ffff_f000), Some(0x10000));
    assert_eq!(virt_to_phys(&guest, 0xffff_ffff_ffff_f008), Some(0x10008));
}

#[test]
fn small_pages_are_walked_to_the_last_level() {
    let mut guest = tables();
    write_u64(&mut guest, 0x12000, 0x13000 | 3);
    write_u64(&mut guest, 0x13000 + 8 * 5, 0x7_7000 | 1);
    assert_eq!(virt_to_phys(&guest, 0x5000), Some(0x7_7000));
    assert_eq!(virt_to_phys(&guest, 0x5abc), Some(0x7_7abc));
    assert_eq!(virt_to_phys(&guest, 0x6000), None);
    assert_eq!(virt_to_phys(&guest, 0x20_0000), Some(0x20_0000));
    write_u64(&mut guest, 0x12000, 0x7fff_f000 | 3);
    assert_eq!(virt_to_phys(&guest, 0x5000), None);
    write_u64(&mut guest, 0x12000, 0x8000_0000_0000_0083);
    assert_eq!(virt_to_phys(&guest, 0x5000), Some(0x5000));
}

#[test]
fn words_are_stored_with_the_lowest_byte_first() {
    let mut mem = vec![0u8; 32];
    write_u64(&mut mem, 3, 0x0102_0304_0506_0708);
    assert_eq!(&mem[3..11], &[8, 7, 6, 5, 4, 3, 2, 1]);
    assert_eq!(read_u64(&mem, 3), 0x0102_0304_0506_0708);
    assert_eq!(read_u32(&mem, 3), 0x0506_0708);
    assert_eq!(read_u16(&mem, 9), 0x0102);
    write_u32(&mut mem, 12, 0xdead_beef);
    assert_eq!(&mem[12..16], &[0xef, 0xbe, 0xad, 0xde]);
    write_u16(&mut mem, 30, 0xabcd);
    assert_eq!(&mem[30..], &[0xcd, 0xab]);
    write_i32(&mut mem, 16, -2);
    assert_eq!(&mem[16..20], &[0xfe, 0xff, 0xff, 0xff]);
    assert_eq!(read_i32(&mem, 16), -2);
    assert_eq!(read_u32(&mem, 16), 0xffff_fffe);
    write_i64(&mut mem, 20, i64::MIN + 1);
    assert_eq!(read_i64(&mem, 20), i64::MIN + 1);
    assert_eq!(mem[0], 0);
    assert_eq!(mem[11], 0);
}

#[test]
fn bytes_are_copied_and_cleared() {
    let mut mem = vec![9u8; 16];
    copy_into(&mut mem, 4, b"abcd");
    assert_eq!(&mem, b"\x09\x09\x09\x09abcd\x09\x09\x09\x09\x09\x09\x09\x09");
    fill_zero(&mut mem, 6, 4);
    assert_eq!(&mem, b"\x09\x09\x09\x09ab\0\0\0\0\x09\x09\x09\x09\x09\x09");
    assert_eq!(read_bytes(&mem, 3, 4), b"\x09ab\0");
    assert_eq!(read_bytes(&mem, 16, 0), b"");
    copy_into(&mut mem, 16, b"");
    fill_zero(&mut mem, 0, 0);
    assert_eq!(mem[0], 9);
}

#[test]
fn text_ends_before_the_first_zero() {
    let mem = b"one\0two\0\0end".to_vec();
    assert_eq!(read_c_string(&mem, 0), Some(b"one".to_vec()));
    assert_eq!(read_c_string(&mem, 1), Some(b"ne".to_vec()));
    assert_eq!(read_c_string(&mem, 3), Some(vec![]));
    assert_eq!(read_c_string(&mem, 4), Some(b"two".to_vec()));
    assert_eq!(read_c_string(&mem, 8), Some(vec![]));
    assert_eq!(read_c_string(&mem, 9), None);
    assert_eq!(read_c_string(&mem, 12), None);
    assert_eq!(read_c_string(&mem, 13), None);
}

#[test]
fn host_address_of_a_translated_address() {
    let guest = tables();
    let host_base = 0x7f00_0000_0000usize;
    let cpu = UhyveCPU::new(0, b"kernel".to_vec(), vec![], host_base);
    for addr in [0u64, 0x9000, 0x40_1000, 0x3fff_ffff] {
        let phys = cpu.virt_to_phys(&guest, addr).unwrap();
        assert_eq!(cpu.host_address(phys as usize), host_base + addr as usize);
    }
    assert_eq!(cpu.virt_to_phys(&guest, 0x4000_0000), None);
}
