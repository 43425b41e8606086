use uhyve::boot_info::{BootInfo, TlsInfo};
use uhyve::consts::{BOOT_INFO_ADDR, KERNEL_STACK_SIZE, UHYVE_UART_PORT};
use uhyve::elf::{Note, Notes, ProgramHeader, Rela, PT_LOAD};
use uhyve::loader::{
    check_notes, load_segment, load_segments, relocate, InvalidImage, LoadFailure,
};
use uhyve::params::{GuestMemorySize, Ipv4Address, Params};
use uhyve::uhyve::{MmapMemory, Uhyve};
use uhyve::vm::{LoadKernelError, Vm};

const MIB: usize = 1024 * 1024;

const EM_X86_64: u16 = 62;
const ET_EXEC: u16 = 2;
const ET_DYN: u16 = 3;
const PT_DYNAMIC: u32 = 2;
const PT_NOTE: u32 = 4;
const PT_TLS: u32 = 7;

struct Segment {
    kind: u32,
    offset: u64,
    vaddr: u64,
    filesz: u64,
    memsz: u64,
    align: u64,
}

fn put(image: &mut Vec<u8>, at: usize, bytes: &[u8]) {
    if image.len() < at + bytes.len() {
        image.resize(at + bytes.len(), 0);
    }
    image[at..at + bytes.len()].copy_from_slice(bytes);
}

/// An image with the given header fields and program headers; the bytes of
/// the segments are put in by the caller.
fn image(kind: u16, machine: u16, entry: u64, segments: &[Segment]) -> Vec<u8> {
    let mut image = vec![0u8; 64 + 56 * segments.len()];
    put(&mut image, 0, &[0x7f, b'E', b'L', b'F', 2, 1, 1, 0]);
    put(&mut image, 16, &kind.to_le_bytes());
    put(&mut image, 18, &machine.to_le_bytes());
    put(&mut image, 20, &1u32.to_le_bytes());
    put(&mut image, 24, &entry.to_le_bytes());
    put(&mut image, 32, &64u64.to_le_bytes());
    put(&mut image, 52, &64u16.to_le_bytes());
    put(&mut image, 54, &56u16.to_le_bytes());
    put(&mut image, 56, &(segments.len() as u16).to_le_bytes());
    put(&mut image, 58, &64u16.to_le_bytes());
    for (i, segment) in segments.iter().enumerate() {
        let at = 64 + 56 * i;
        put(&mut image, at, &segment.kind.to_le_bytes());
        put(&mut image, at + 4, &7u32.to_le_bytes());
        put(&mut image, at + 8, &segment.offset.to_le_bytes());
        put(&mut image, at + 16, &segment.vaddr.to_le_bytes());
        put(&mut image, at + 24, &segment.vaddr.to_le_bytes());
        put(&mut image, at + 32, &segment.filesz.to_le_bytes());
        put(&mut image, at + 40, &segment.memsz.to_le_bytes());
        put(&mut image, at + 48, &segment.align.to_le_bytes());
    }
    image
}

fn load(offset: u64, vaddr: u64, filesz: u64, memsz: u64) -> Segment {
    Segment { kind: PT_LOAD, offset, vaddr, filesz, memsz, align: 0x1000 }
}

/// A static kernel with one segment of sixteen bytes at 0x800000 that takes
/// up 64 bytes of memory.
fn static_kernel() -> Vec<u8> {
    let mut image = image(ET_EXEC, EM_X86_64, 0x800010, &[load(0x200, 0x800000, 16, 64)]);
    put(&mut image, 0x200, b"hello, unikernel");
    image
}

/// A position-independent kernel with the entry 0x1000, one segment that
/// covers the file, and the relocations given.
fn pie_kernel(relocations: &[(u64, u32, i64)]) -> Vec<u8> {
    let dynamic = 0x200u64;
    let table = 0x300u64;
    let size = 24 * relocations.len() as u64;
    let mut image = image(
        ET_DYN,
        EM_X86_64,
        0x1000,
        &[
            load(0, 0, 0x400, 0x3000),
            Segment { kind: PT_DYNAMIC, offset: dynamic, vaddr: dynamic, filesz: 64, memsz: 64, align: 8 },
        ],
    );
    image.resize(0x400, 0);
    let entries: [(u64, u64); 4] = [(7, table), (8, size), (9, 24), (0, 0)];
    for (i, (tag, value)) in entries.iter().enumerate() {
        put(&mut image, dynamic as usize + 16 * i, &tag.to_le_bytes());
        put(&mut image, dynamic as usize + 16 * i + 8, &value.to_le_bytes());
    }
    for (i, (offset, kind, addend)) in relocations.iter().enumerate() {
        let at = table as usize + 24 * i;
        put(&mut image, at, &offset.to_le_bytes());
        put(&mut image, at + 8, &(*kind as u64).to_le_bytes());
        put(&mut image, at + 16, &addend.to_le_bytes());
    }
    image
}

/// A static kernel with a note of the given owner, kind and descriptor.
fn kernel_with_note(name: &[u8], kind: u32, desc: &[u8]) -> Vec<u8> {
    let mut note = Vec::new();
    note.extend_from_slice(&(name.len() as u32 + 1).to_le_bytes());
    note.extend_from_slice(&(desc.len() as u32).to_le_bytes());
    note.extend_from_slice(&kind.to_le_bytes());
    note.extend_from_slice(name);
    note.push(0);
    while note.len() % 4 != 0 {
        note.push(0);
    }
    note.extend_from_slice(desc);
    while note.len() % 4 != 0 {
        note.push(0);
    }
    let mut image = image(
        ET_EXEC,
        EM_X86_64,
        0x800000,
        &[
            load(0x200, 0x800000, 16, 16),
            Segment { kind: PT_NOTE, offset: 0x300, vaddr: 0x900000, filesz: note.len() as u64, memsz: note.len() as u64, align: 4 },
        ],
    );
    put(&mut image, 0x200, b"hello, unikernel");
    put(&mut image, 0x300, &note);
    image
}

fn params(size: usize, verbose: bool) -> Params {
    Params {
        verbose,
        memory_size: GuestMemorySize::try_from(size as u128).unwrap(),
        ..Params::default()
    }
}

fn machine(params: Params, guest: &mut Vec<u8>) -> Uhyve {
    let mem = MmapMemory::new(0, guest.len(), 0, guest.as_ptr() as usize);
    Uhyve::new(b"/tmp/kernel".to_vec(), params, mem, guest.as_mut_slice())
}

fn word(guest: &[u8], at: usize) -> u64 {
    u64::from_le_bytes(guest[at..at + 8].try_into().unwrap())
}

#[test]
fn static_kernel_is_loaded_where_it_was_linked() {
    let mut guest = vec![0u8; 64 * MIB];
    let mut vm = machine(params(64 * MIB, true), &mut guest);
    for byte in guest[0x800000..0x800100].iter_mut() {
        *byte = 0xee;
    }
    let host = guest.as_ptr() as usize;
    let info = vm.load_kernel(&mut guest, &static_kernel(), 1_700_000_000_000_000, 2400).unwrap();
    assert_eq!(vm.get_offset(), 0x800000);
    assert_eq!(vm.get_entry_point(), 0x800010);
    assert_eq!(vm.boot_info(), Some(host + BOOT_INFO_ADDR as usize));
    assert_eq!(&guest[0x800000..0x800010], b"hello, unikernel");
    assert!(guest[0x800010..0x800040].iter().all(|byte| *byte == 0));
    assert!(guest[0x800040..0x800100].iter().all(|byte| *byte == 0xee));
    assert_eq!(
        info,
        BootInfo {
            base: 0x800000,
            limit: (64 * MIB) as u64,
            image_size: 64,
            tls_info: TlsInfo { start: 0, filesz: 0, memsz: 0, align: 0 },
            current_stack_address: 0x800000 - KERNEL_STACK_SIZE,
            host_logical_addr: host as u64,
            boot_gtod: 1_700_000_000_000_000,
            cpu_freq: 2400,
            possible_cpus: 1,
            uartport: UHYVE_UART_PORT,
            uhyve: 0b11,
            net_info: uhyve::boot_info::NetInfo {
                ip: [255, 255, 255, 255],
                gateway: [255, 255, 255, 255],
                mask: [255, 255, 255, 0],
            },
        }
    );
    assert_eq!(info.current_stack_address, 0x7f8000);
}

#[test]
fn quiet_guest_is_told_no_console() {
    let mut guest = vec![0u8; 16 * MIB];
    let mut vm = machine(params(16 * MIB, false), &mut guest);
    let info = vm.load_kernel(&mut guest, &static_kernel(), 0, 0).unwrap();
    assert_eq!(info.uartport, 0);
    let mut guest = vec![0u8; 16 * MIB];
    let mut vm = machine(params(16 * MIB, true), &mut guest);
    let info = vm.load_kernel(&mut guest, &static_kernel(), 0, 0).unwrap();
    assert_ne!(info.uartport, 0);
    assert_eq!(info.uartport, 0x800);
}

#[test]
fn pie_image_with_relative_relocation() {
    let mut guest = vec![0u8; 64 * MIB];
    let mut vm = machine(params(64 * MIB, true), &mut guest);
    let kernel = pie_kernel(&[(0x2000, 8, 0x2000)]);
    let info = vm.load_kernel(&mut guest, &kernel, 0, 0).unwrap();
    assert_eq!(vm.get_entry_point(), 0x401000);
    assert_eq!(vm.get_offset(), 0x400000);
    assert_eq!(word(&guest, 0x402000), 0x402000);
    assert_eq!(info.base, 0x400000);
    assert_eq!(info.image_size, 0x3000);
    assert_eq!(info.current_stack_address, 0x400000 - 32768);
    assert_eq!(&guest[0x400000..0x400400], &kernel[..]);
    assert!(guest[0x400400..0x402000].iter().all(|byte| *byte == 0));
}

#[test]
fn relocations_of_both_machines_are_applied_and_others_passed_over() {
    let mut guest = vec![0u8; 16 * MIB];
    let mut vm = machine(params(16 * MIB, false), &mut guest);
    let kernel = pie_kernel(&[(0x1000, 1027, 0x10), (0x1008, 6, 0x20), (0x1010, 8, -0x400000)]);
    vm.load_kernel(&mut guest, &kernel, 0, 0).unwrap();
    assert_eq!(word(&guest, 0x401000), 0x400010);
    assert_eq!(word(&guest, 0x401008), 0);
    assert_eq!(word(&guest, 0x401010), 0);
}

#[test]
fn later_relocation_wins_where_two_overlap() {
    let mut guest = vec![0u8; 16 * MIB];
    let mut vm = machine(params(16 * MIB, false), &mut guest);
    let kernel = pie_kernel(&[(0x1000, 8, 0x1111), (0x1004, 8, 0x2222)]);
    vm.load_kernel(&mut guest, &kernel, 0, 0).unwrap();
    assert_eq!(word(&guest, 0x401004), 0x402222);
    assert_ne!(word(&guest, 0x401000), 0x401111);
}

#[test]
fn insufficient_memory() {
    let mut guest = vec![0u8; 16 * MIB];
    let mut vm = machine(params(16 * MIB, true), &mut guest);
    let mut kernel = image(ET_EXEC, EM_X86_64, 0x800000, &[load(0x200, 0x800000, 16, 32 * MIB as u64)]);
    put(&mut kernel, 0x200, b"hello, unikernel");
    let before = guest.clone();
    let result = vm.load_kernel(&mut guest, &kernel, 0, 0);
    assert!(matches!(result, Err(LoadKernelError::InsufficientMemory)));
    assert_eq!(result.unwrap_err().to_string(), "guest memory size is not large enough");
    assert!(guest == before);
    assert_eq!(vm.boot_info(), None);
    assert_eq!(vm.get_offset(), 0x800000);
}

#[test]
fn segments_before_the_one_that_does_not_fit_stay_placed() {
    let mut guest = vec![0u8; 16 * MIB];
    let mut vm = machine(params(16 * MIB, true), &mut guest);
    let mut kernel = image(
        ET_EXEC,
        EM_X86_64,
        0x800000,
        &[load(0x200, 0x800000, 16, 16), load(0x200, 0xfffff8, 16, 16), load(0x200, 0x900000, 16, 16)],
    );
    put(&mut kernel, 0x200, b"hello, unikernel");
    let result = vm.load_kernel(&mut guest, &kernel, 0, 0);
    assert!(matches!(result, Err(LoadKernelError::InsufficientMemory)));
    assert_eq!(&guest[0x800000..0x800010], b"hello, unikernel");
    assert!(guest[0x900000..0x900010].iter().all(|byte| *byte == 0));
    assert!(guest[0xfffff8..].iter().all(|byte| *byte == 0));
}

#[test]
fn file_that_is_no_image_is_rejected_by_the_parser() {
    let mut guest = vec![0u8; 16 * MIB];
    let mut vm = machine(params(16 * MIB, true), &mut guest);
    let before = guest.clone();
    let result = vm.load_kernel(&mut guest, b"#!/bin/sh\necho no kernel\n", 0, 0);
    assert!(matches!(result, Err(LoadKernelError::Goblin(_))));
    assert!(guest == before);
    assert_eq!(vm.get_offset(), 0);
    assert_eq!(vm.get_entry_point(), 0);
    let result = vm.load_kernel(&mut guest, &[], 0, 0);
    assert!(matches!(result, Err(LoadKernelError::Goblin(_))));
    assert!(!result.unwrap_err().to_string().is_empty());
}

#[test]
fn image_for_another_machine_is_rejected() {
    let mut guest = vec![0u8; 16 * MIB];
    let mut vm = machine(params(16 * MIB, true), &mut guest);
    let mut kernel = image(ET_EXEC, 183, 0x800000, &[load(0x200, 0x800000, 16, 16)]);
    put(&mut kernel, 0x200, b"hello, unikernel");
    let before = guest.clone();
    let result = vm.load_kernel(&mut guest, &kernel, 0, 0);
    assert!(matches!(result, Err(LoadKernelError::InvalidImage(InvalidImage::Machine))));
    assert_eq!(result.unwrap_err().to_string(), "invalid data");
    assert!(guest == before);
    assert_eq!(vm.get_offset(), 0);
}

#[test]
fn image_that_needs_libraries_is_rejected() {
    let dynamic = 0x200u64;
    let names = 0x300u64;
    let mut kernel = image(
        ET_DYN,
        EM_X86_64,
        0x1000,
        &[
            load(0, 0, 0x400, 0x1000),
            Segment { kind: PT_DYNAMIC, offset: dynamic, vaddr: dynamic, filesz: 64, memsz: 64, align: 8 },
        ],
    );
    kernel.resize(0x400, 0);
    let entries: [(u64, u64); 4] = [(5, names), (10, 16), (1, 1), (0, 0)];
    for (i, (tag, value)) in entries.iter().enumerate() {
        put(&mut kernel, dynamic as usize + 16 * i, &tag.to_le_bytes());
        put(&mut kernel, dynamic as usize + 16 * i + 8, &value.to_le_bytes());
    }
    put(&mut kernel, names as usize, b"\0libc.so.6\0");
    let mut guest = vec![0u8; 16 * MIB];
    let mut vm = machine(params(16 * MIB, true), &mut guest);
    let result = vm.load_kernel(&mut guest, &kernel, 0, 0);
    assert!(matches!(result, Err(LoadKernelError::InvalidImage(InvalidImage::SharedLibraries))));
}

#[test]
fn entry_version_one_is_accepted() {
    let mut guest = vec![0u8; 16 * MIB];
    let mut vm = machine(params(16 * MIB, true), &mut guest);
    let kernel = kernel_with_note(b"HERMIT", 0x5a00, &[1, 0, 0, 0]);
    assert!(vm.load_kernel(&mut guest, &kernel, 0, 0).is_ok());
    assert_eq!(&guest[0x800000..0x800010], b"hello, unikernel");
}

#[test]
fn other_entry_version_is_rejected() {
    let mut guest = vec![0u8; 16 * MIB];
    let mut vm = machine(params(16 * MIB, true), &mut guest);
    let kernel = kernel_with_note(b"HERMIT", 0x5a00, &[2, 0, 0, 0]);
    let before = guest.clone();
    let result = vm.load_kernel(&mut guest, &kernel, 0, 0);
    assert!(matches!(result, Err(LoadKernelError::InvalidImage(InvalidImage::EntryVersion))));
    assert!(guest == before);
}

#[test]
fn notes_of_others_say_nothing_of_the_version() {
    let mut guest = vec![0u8; 16 * MIB];
    let mut vm = machine(params(16 * MIB, true), &mut guest);
    let kernel = kernel_with_note(b"GNU", 0x5a00, &[2, 0, 0, 0]);
    assert!(vm.load_kernel(&mut guest, &kernel, 0, 0).is_ok());
    let mut guest = vec![0u8; 16 * MIB];
    let mut vm = machine(params(16 * MIB, true), &mut guest);
    let kernel = kernel_with_note(b"HERMIT", 3, &[2, 0, 0, 0]);
    assert!(vm.load_kernel(&mut guest, &kernel, 0, 0).is_ok());
}

#[test]
fn note_that_cannot_be_read_is_rejected() {
    let mut guest = vec![0u8; 16 * MIB];
    let mut vm = machine(params(16 * MIB, true), &mut guest);
    let mut kernel = kernel_with_note(b"HERMIT", 0x5a00, &[1, 0, 0, 0]);
    put(&mut kernel, 0x300, &0xffff_fff0u32.to_le_bytes());
    let result = vm.load_kernel(&mut guest, &kernel, 0, 0);
    assert!(matches!(result, Err(LoadKernelError::InvalidImage(InvalidImage::Notes))));
}

#[test]
fn segment_beyond_the_file_is_rejected() {
    let mut guest = vec![0u8; 16 * MIB];
    let mut vm = machine(params(16 * MIB, true), &mut guest);
    let kernel = image(ET_EXEC, EM_X86_64, 0x800000, &[load(0x200, 0x800000, 0x1000, 0x1000)]);
    let before = guest.clone();
    let result = vm.load_kernel(&mut guest, &kernel, 0, 0);
    assert!(matches!(result, Err(LoadKernelError::InvalidImage(InvalidImage::Segment))));
    assert!(guest == before);
}

#[test]
fn template_of_thread_local_storage_is_noted() {
    let mut guest = vec![0u8; 16 * MIB];
    let mut vm = machine(params(16 * MIB, true), &mut guest);
    let mut kernel = image(
        ET_EXEC,
        EM_X86_64,
        0x800000,
        &[
            load(0x200, 0x800000, 16, 32),
            Segment { kind: PT_TLS, offset: 0x200, vaddr: 0x800008, filesz: 8, memsz: 24, align: 16 },
            load(0x208, 0x900000, 8, 8),
        ],
    );
    put(&mut kernel, 0x200, b"hello, unikernel");
    let info = vm.load_kernel(&mut guest, &kernel, 0, 0).unwrap();
    assert_eq!(info.tls_info, TlsInfo { start: 0x800008, filesz: 8, memsz: 24, align: 16 });
    assert_eq!(info.image_size, 40);
    assert_eq!(&guest[0x900000..0x900008], b"nikernel");
}

#[test]
fn addresses_of_the_configuration_reach_the_guest() {
    let mut guest = vec![0u8; 16 * MIB];
    let mut configuration = params(16 * MIB, true);
    configuration.ip = Some(Ipv4Address::new(10, 0, 5, 2));
    configuration.gateway = Some(Ipv4Address::new(10, 0, 5, 1));
    configuration.mask = Some(Ipv4Address::new(255, 255, 255, 0));
    let mut vm = machine(configuration, &mut guest);
    assert_eq!(vm.get_ip(), Some(Ipv4Address::new(10, 0, 5, 2)));
    let info = vm.load_kernel(&mut guest, &static_kernel(), 0, 0).unwrap();
    assert_eq!(info.net_info.ip, [10, 0, 5, 2]);
    assert_eq!(info.net_info.gateway, [10, 0, 5, 1]);
    assert_eq!(info.net_info.mask, [255, 255, 255, 0]);
    assert_eq!(info.net_info.ip(), Ipv4Address::new(10, 0, 5, 2));
    assert_eq!(info.net_info.gateway(), Ipv4Address::new(10, 0, 5, 1));
    assert_eq!(info.net_info.mask(), Ipv4Address::new(255, 255, 255, 0));
}

#[test]
fn relocation_beyond_the_memory_is_rejected() {
    let mut guest = vec![0u8; 16 * MIB];
    let mut vm = machine(params(16 * MIB, true), &mut guest);
    let kernel = pie_kernel(&[(16 * MIB as u64, 8, 0)]);
    let result = vm.load_kernel(&mut guest, &kernel, 0, 0);
    assert!(matches!(result, Err(LoadKernelError::InsufficientMemory)));
    assert_eq!(vm.boot_info(), None);
}

#[test]
fn relocation_to_a_negative_address_is_rejected() {
    let mut guest = vec![0u8; 16 * MIB];
    let mut vm = machine(params(16 * MIB, true), &mut guest);
    let kernel = pie_kernel(&[(0x1000, 8, 0x10), (0x2000, 8, -0x400001)]);
    let result = vm.load_kernel(&mut guest, &kernel, 0, 0);
    assert!(matches!(result, Err(LoadKernelError::InvalidImage(InvalidImage::Relocation))));
    assert_eq!(word(&guest, 0x401000), 0x400010);
    assert_eq!(word(&guest, 0x402000), 0);
}

#[test]
fn one_segment_is_copied_and_cleared() {
    let mut guest = vec![0x55u8; 64];
    let file = b"0123456789".to_vec();
    let header = ProgramHeader { p_type: PT_LOAD, p_offset: 2, p_vaddr: 8, p_filesz: 4, p_memsz: 10, p_align: 1 };
    assert_eq!(load_segment(&mut guest, &file, false, &header), Ok(()));
    assert_eq!(&guest[8..12], b"2345");
    assert_eq!(&guest[12..18], &[0u8; 6]);
    assert!(guest[..8].iter().all(|byte| *byte == 0x55));
    assert!(guest[18..].iter().all(|byte| *byte == 0x55));
    let wide = ProgramHeader { p_memsz: 57, ..header };
    assert_eq!(load_segment(&mut guest, &file, false, &wide), Err(LoadFailure::InsufficientMemory));
    let exact = ProgramHeader { p_memsz: 56, ..header };
    assert_eq!(load_segment(&mut guest, &file, false, &exact), Ok(()));
    let far = ProgramHeader { p_vaddr: u64::MAX, ..header };
    assert_eq!(load_segment(&mut guest, &file, true, &far), Err(LoadFailure::InsufficientMemory));
    let torn = ProgramHeader { p_offset: 7, ..header };
    assert_eq!(
        load_segment(&mut guest, &file, false, &torn),
        Err(LoadFailure::Invalid(InvalidImage::Segment))
    );
}

#[test]
fn size_of_a_static_image_is_the_sum_of_its_segments() {
    let mut guest = vec![0u8; 256];
    let file = vec![7u8; 32];
    let headers = vec![
        ProgramHeader { p_type: PT_LOAD, p_offset: 0, p_vaddr: 0, p_filesz: 8, p_memsz: 16, p_align: 1 },
        ProgramHeader { p_type: 6, p_offset: 0, p_vaddr: 0, p_filesz: 8, p_memsz: 1000, p_align: 1 },
        ProgramHeader { p_type: PT_LOAD, p_offset: 8, p_vaddr: 100, p_filesz: 8, p_memsz: 30, p_align: 1 },
    ];
    let placed = load_segments(&mut guest, &file, false, &headers);
    assert_eq!(placed, Ok((46, TlsInfo { start: 0, filesz: 0, memsz: 0, align: 0 })));
    let mut guest = vec![0u8; 0x400200];
    let placed = load_segments(&mut guest, &file, true, &headers);
    assert_eq!(placed, Ok((130, TlsInfo { start: 0, filesz: 0, memsz: 0, align: 0 })));
    assert_eq!(&guest[0x400000..0x400008], &[7u8; 8]);
    assert_eq!(&guest[0x400064..0x40006c], &[7u8; 8]);
}

#[test]
fn relocations_patch_words() {
    let mut guest = vec![0xffu8; 64];
    let relas = vec![
        Rela { r_type: 8, r_offset: 8, r_addend: Some(5) },
        Rela { r_type: 8, r_offset: 24, r_addend: None },
        Rela { r_type: 7, r_offset: 40, r_addend: Some(5) },
    ];
    assert_eq!(relocate(&mut guest, 16, &relas), Ok(()));
    assert_eq!(word(&guest, 24), 21);
    assert_eq!(word(&guest, 40), 16);
    assert_eq!(word(&guest, 56), u64::MAX);
    let last = vec![Rela { r_type: 8, r_offset: 40, r_addend: Some(0) }];
    assert_eq!(relocate(&mut guest, 16, &last), Ok(()));
    let beyond = vec![Rela { r_type: 8, r_offset: 41, r_addend: Some(0) }];
    assert_eq!(relocate(&mut guest, 16, &beyond), Err(LoadFailure::InsufficientMemory));
}

#[test]
fn first_version_note_decides() {
    let note = |name: &[u8], kind: u32, desc: &[u8]| Note { n_type: kind, name: name.to_vec(), desc: desc.to_vec() };
    assert_eq!(check_notes(&Notes::Absent), None);
    assert_eq!(check_notes(&Notes::Malformed), Some(InvalidImage::Notes));
    assert_eq!(check_notes(&Notes::Present(vec![])), None);
    assert_eq!(
        check_notes(&Notes::Present(vec![note(b"GNU", 1, &[9]), note(b"HERMIT", 0x5a00, &[1]), note(b"HERMIT", 0x5a00, &[2])])),
        None
    );
    assert_eq!(
        check_notes(&Notes::Present(vec![note(b"HERMIT", 0x5a00, &[2]), note(b"HERMIT", 0x5a00, &[1])])),
        Some(InvalidImage::EntryVersion)
    );
    assert_eq!(
        check_notes(&Notes::Present(vec![note(b"HERMIT", 0x5a00, &[])])),
        Some(InvalidImage::EntryVersion)
    );
    assert_eq!(check_notes(&Notes::Present(vec![note(b"HERMIT\0", 0x5a00, &[2])])), None);
}

#[test]
fn failures_of_the_loader_become_errors() {
    assert!(matches!(
        LoadKernelError::from_failure(LoadFailure::InsufficientMemory),
        LoadKernelError::InsufficientMemory
    ));
    assert!(matches!(
        LoadKernelError::from_failure(LoadFailure::Invalid(InvalidImage::Machine)),
        LoadKernelError::InvalidImage(InvalidImage::Machine)
    ));
}

#[test]
fn boot_information_of_a_loaded_image() {
    let net_info = uhyve::boot_info::NetInfo::new(Some(Ipv4Address::new(10, 0, 5, 2)), None, None);
    assert_eq!(net_info.ip, [10, 0, 5, 2]);
    assert_eq!(net_info.gateway, [255, 255, 255, 255]);
    assert_eq!(net_info.mask, [255, 255, 255, 0]);
    let tls_info = TlsInfo { start: 1, filesz: 2, memsz: 3, align: 4 };
    let info = BootInfo::new(0x400000, 1 << 26, 0x3000, tls_info, 0x7f00_0000, 77, 3000, false, net_info);
    assert_eq!(info.base, 0x400000);
    assert_eq!(info.limit, 1 << 26);
    assert_eq!(info.image_size, 0x3000);
    assert_eq!(info.tls_info, tls_info);
    assert_eq!(info.current_stack_address, 0x3f8000);
    assert_eq!(info.host_logical_addr, 0x7f00_0000);
    assert_eq!(info.boot_gtod, 77);
    assert_eq!(info.cpu_freq, 3000);
    assert_eq!(info.possible_cpus, 1);
    assert_eq!(info.uartport, 0);
    assert_eq!(info.uhyve, 3);
    assert_eq!(info.net_info, net_info);
    assert_eq!(BootInfo::new(32768, 0, 0, tls_info, 0, 0, 0, true, net_info).current_stack_address, 0);
    assert_eq!(BootInfo::new(32768, 0, 0, tls_info, 0, 0, 0, true, net_info).uartport, UHYVE_UART_PORT);
}

#[test]
fn entry_beyond_the_address_space_is_rejected() {
    let mut guest = vec![0u8; 16 * MIB];
    let mut vm = machine(params(16 * MIB, true), &mut guest);
    let mut kernel = image(ET_DYN, EM_X86_64, u64::MAX - 0x3f_ffff, &[load(0x200, 0, 16, 16)]);
    put(&mut kernel, 0x200, b"hello, unikernel");
    let before = guest.clone();
    let result = vm.load_kernel(&mut guest, &kernel, 0, 0);
    assert!(matches!(result, Err(LoadKernelError::InvalidImage(InvalidImage::EntryPoint))));
    assert!(guest == before);
    assert_eq!(vm.get_offset(), 0);
    let mut kernel = image(ET_DYN, EM_X86_64, u64::MAX - 0x40_0000, &[load(0x200, 0, 16, 16)]);
    put(&mut kernel, 0x200, b"hello, unikernel");
    assert!(vm.load_kernel(&mut guest, &kernel, 0, 0).is_ok());
    assert_eq!(vm.get_entry_point(), u64::MAX);
    let mut kernel = image(ET_EXEC, EM_X86_64, u64::MAX, &[load(0x200, 0x800000, 16, 16)]);
    put(&mut kernel, 0x200, b"hello, unikernel");
    assert!(vm.load_kernel(&mut guest, &kernel, 0, 0).is_ok());
    assert_eq!(vm.get_entry_point(), u64::MAX);
}

#[test]
fn template_beyond_the_address_space_is_rejected() {
    let mut guest = vec![0u8; 16 * MIB];
    let file = vec![1u8; 16];
    let headers = vec![
        ProgramHeader { p_type: PT_LOAD, p_offset: 0, p_vaddr: 0, p_filesz: 16, p_memsz: 16, p_align: 1 },
        ProgramHeader { p_type: 7, p_offset: 0, p_vaddr: u64::MAX, p_filesz: 0, p_memsz: 0, p_align: 1 },
        ProgramHeader { p_type: PT_LOAD, p_offset: 0, p_vaddr: 32, p_filesz: 16, p_memsz: 16, p_align: 1 },
    ];
    assert_eq!(
        load_segments(&mut guest, &file, true, &headers),
        Err(LoadFailure::Invalid(InvalidImage::Segment))
    );
    assert_eq!(&guest[0x400000..0x400010], &[1u8; 16]);
    assert_eq!(&guest[0x400020..0x400030], &[0u8; 16]);
    let placed = load_segments(&mut guest, &file, false, &headers);
    assert_eq!(placed, Ok((32, TlsInfo { start: u64::MAX, filesz: 0, memsz: 0, align: 1 })));
}

#[test]
fn later_segment_wins_where_two_overlap() {
    let mut guest = vec![0xffu8; 64];
    let file = b"aaaaaaaabbbbbbbb".to_vec();
    let headers = vec![
        ProgramHeader { p_type: PT_LOAD, p_offset: 0, p_vaddr: 0, p_filesz: 8, p_memsz: 16, p_align: 1 },
        ProgramHeader { p_type: PT_LOAD, p_offset: 8, p_vaddr: 4, p_filesz: 8, p_memsz: 8, p_align: 1 },
        ProgramHeader { p_type: PT_LOAD, p_offset: 0, p_vaddr: 32, p_filesz: 4, p_memsz: 8, p_align: 1 },
    ];
    assert!(load_segments(&mut guest, &file, false, &headers).is_ok());
    assert_eq!(&guest[..16], b"aaaabbbbbbbb\0\0\0\0");
    assert_eq!(&guest[32..40], b"aaaa\0\0\0\0");
    assert_eq!(&guest[16..32], &[0xff; 16]);
}
