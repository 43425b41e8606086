//! The fixed layout of guest physical memory and the numbers that the guest
//! and the hypervisor agree on.

use vstd::prelude::*;

verus! {

/// Size of a small page.
pub const PAGE_SIZE: usize = 0x1000;

/// Size of a large page, the unit of the initial identity mapping.
pub const LARGE_PAGE_SIZE: u64 = 0x20_0000;

/// Number of the entries of one page table.
pub const PAGE_TABLE_ENTRIES: usize = 512;

/// Guest physical address of the global descriptor table.
pub const BOOT_GDT: u64 = 0x1000;

/// Index of the null descriptor.
pub const BOOT_GDT_NULL: u64 = 0;

/// Index of the code segment descriptor.
pub const BOOT_GDT_CODE: u64 = 1;

/// Index of the data segment descriptor.
pub const BOOT_GDT_DATA: u64 = 2;

/// Number of the descriptors.
pub const BOOT_GDT_MAX: u64 = 3;

/// Guest physical address of the boot information.
pub const BOOT_INFO_ADDR: u64 = 0x9000;

/// Guest physical address of the top-level page table.
pub const BOOT_PML4: u64 = 0x10000;

/// Guest physical address of the page directory pointer table.
pub const BOOT_PDPTE: u64 = 0x11000;

/// Guest physical address of the page directory.
pub const BOOT_PDE: u64 = 0x12000;

/// Load address of a position-independent kernel.
pub const DYNAMIC_LOAD_BASE: u64 = 0x40_0000;

/// Address that a statically linked kernel is linked at.
pub const STATIC_LOAD_BASE: u64 = 0x80_0000;

/// Size of the boot stack, which lies below the load base.
pub const KERNEL_STACK_SIZE: u64 = 32_768;

/// Smallest guest memory that is accepted.
pub const MINIMUM_MEMORY_SIZE: u128 = 16 * 1024 * 1024;

/// Guest memory of a virtual machine unless the configuration says otherwise.
pub const DEFAULT_MEMORY_SIZE: u128 = 64 * 1024 * 1024;

/// End of the address space that 32-bit devices can reach.
pub const KVM_32BIT_MAX_MEM_SIZE: u64 = 0x1_0000_0000;

/// Size of the hole that is left below that end for memory-mapped devices.
pub const KVM_32BIT_GAP_SIZE: u64 = 0x3000_0000;

/// Start of the hole.
pub const KVM_32BIT_GAP_START: u64 = 0xd000_0000;

/// I/O port of the write hypercall.
pub const UHYVE_PORT_WRITE: u16 = 0x400;

/// I/O port of the open hypercall.
pub const UHYVE_PORT_OPEN: u16 = 0x440;

/// I/O port of the close hypercall.
pub const UHYVE_PORT_CLOSE: u16 = 0x480;

/// I/O port of the read hypercall.
pub const UHYVE_PORT_READ: u16 = 0x500;

/// I/O port of the exit hypercall.
pub const UHYVE_PORT_EXIT: u16 = 0x540;

/// I/O port of the seek hypercall.
pub const UHYVE_PORT_LSEEK: u16 = 0x580;

/// I/O port by which the guest announces frames to send.
pub const UHYVE_PORT_NETINFO: u16 = 0x600;

/// I/O port of the hypercall that asks for the sizes of arguments and environment.
pub const UHYVE_PORT_CMDSIZE: u16 = 0x740;

/// I/O port of the hypercall that asks for arguments and environment.
pub const UHYVE_PORT_CMDVAL: u16 = 0x780;

/// I/O port of the serial console; a byte written to it goes to standard output.
pub const UHYVE_UART_PORT: u16 = 0x800;

/// I/O port of the unlink hypercall.
pub const UHYVE_PORT_UNLINK: u16 = 0x840;

/// Interrupt line of the network device.
pub const UHYVE_IRQ_NET: u32 = 11;

/// Guest physical address of the pair of shared network queues.
pub const SHAREDQUEUE_START: usize = 0x80000;

/// Largest payload of a network frame.
pub const UHYVE_NET_MTU: usize = 1500;

/// Number of the slots of a shared network queue.
pub const UHYVE_QUEUE_SIZE: usize = 8;

/// Largest number of arguments handed to the guest.
pub const MAX_ARGC: usize = 128;

/// Largest number of environment variables handed to the guest.
pub const MAX_ENVC: usize = 128;

} // verus!
