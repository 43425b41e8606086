//! The argument blocks of the hypercalls. The guest lays each of them out in
//! its memory without padding, and tells the host where.

use vstd::prelude::*;
use crate::consts::{
    UHYVE_PORT_CLOSE, UHYVE_PORT_CMDSIZE, UHYVE_PORT_CMDVAL, UHYVE_PORT_EXIT, UHYVE_PORT_LSEEK,
    UHYVE_PORT_NETINFO, UHYVE_PORT_OPEN, UHYVE_PORT_READ, UHYVE_PORT_UNLINK, UHYVE_PORT_WRITE,
    UHYVE_UART_PORT,
};
use crate::mem::{
    i32_at, i64_at, in_bounds, lemma_addressable, lemma_load_apart, lemma_signed_round_trip,
    lemma_store, read_i32, read_i64, read_u64, store_i32, store_i64, u64_at, write_i32, write_i64,
};
use vstd::bytes::{lemma_auto_spec_u32_to_from_le_bytes, spec_u32_to_le_bytes};

verus! {

/// Arguments of the write hypercall.
#[derive(Clone, Copy, Debug, PartialEq, Eq, Structural)]
pub struct SysWrite {
    /// File descriptor to write to.
    pub fd: i32,
    /// Virtual address of the bytes to write.
    pub buf: u64,
    /// Number of the bytes.
    pub len: u64,
}

/// Arguments of the read hypercall.
#[derive(Clone, Copy, Debug, PartialEq, Eq, Structural)]
pub struct SysRead {
    /// File descriptor to read from.
    pub fd: i32,
    /// Virtual address of the buffer.
    pub buf: u64,
    /// Size of the buffer.
    pub len: u64,
    /// Number of the bytes that were read, or -1.
    pub ret: i64,
}

/// Arguments of the close hypercall.
#[derive(Clone, Copy, Debug, PartialEq, Eq, Structural)]
pub struct SysClose {
    /// File descriptor to close.
    pub fd: i32,
    /// What the host has answered.
    pub ret: i32,
}

/// Arguments of the open hypercall.
#[derive(Clone, Copy, Debug, PartialEq, Eq, Structural)]
pub struct SysOpen {
    /// Virtual address of the zero-terminated path.
    pub name: u64,
    /// Flags of the host's `open`.
    pub flags: i32,
    /// Mode of a file that is created.
    pub mode: i32,
    /// The file descriptor, or what the host has answered instead.
    pub ret: i32,
}

/// Arguments of the seek hypercall.
#[derive(Clone, Copy, Debug, PartialEq, Eq, Structural)]
pub struct SysLseek {
    /// File descriptor to seek in.
    pub fd: i32,
    /// Offset to seek to; afterwards, the new position.
    pub offset: i64,
    /// What the offset counts from.
    pub whence: i32,
}

/// Arguments of the exit hypercall.
#[derive(Clone, Copy, Debug, PartialEq, Eq, Structural)]
pub struct SysExit {
    /// Exit status of the guest.
    pub arg: i32,
}

/// Answer to the hypercall that asks for the sizes of arguments and
/// environment, each with its terminator.
#[derive(Clone, Copy, Debug, PartialEq, Eq)]
pub struct SysCmdsize {
    /// Number of the arguments.
    pub argc: i32,
    /// Size of each argument.
    pub argsz: [i32; 128],
    /// Number of the environment variables.
    pub envc: i32,
    /// Size of each environment variable.
    pub envsz: [i32; 128],
}

/// Arguments of the hypercall that asks for arguments and environment.
#[derive(Clone, Copy, Debug, PartialEq, Eq, Structural)]
pub struct SysCmdval {
    /// Virtual address of the table of the arguments' physical addresses.
    pub argv: u64,
    /// Virtual address of the table of the environment variables' physical
    /// addresses.
    pub envp: u64,
}

/// Arguments of the unlink hypercall.
#[derive(Clone, Copy, Debug, PartialEq, Eq, Structural)]
pub struct SysUnlink {
    /// Virtual address of the zero-terminated path.
    pub name: u64,
    /// What the host has answered.
    pub ret: i32,
}

/// Size of `SysWrite` in guest memory.
pub const SYS_WRITE_SIZE: usize = 20;

/// Size of `SysRead` in guest memory.
pub const SYS_READ_SIZE: usize = 28;

/// Size of `SysClose` in guest memory.
pub const SYS_CLOSE_SIZE: usize = 8;

/// Size of `SysOpen` in guest memory.
pub const SYS_OPEN_SIZE: usize = 20;

/// Size of `SysLseek` in guest memory.
pub const SYS_LSEEK_SIZE: usize = 16;

/// Size of `SysExit` in guest memory.
pub const SYS_EXIT_SIZE: usize = 4;

/// Size of `SysCmdsize` in guest memory.
pub const SYS_CMDSIZE_SIZE: usize = 1032;

/// Size of `SysCmdval` in guest memory.
pub const SYS_CMDVAL_SIZE: usize = 16;

/// Size of `SysUnlink` in guest memory.
pub const SYS_UNLINK_SIZE: usize = 12;

/// Whether a block of `size` bytes at `addr` lies inside the memory.
fn lies_inside(mem: &[u8], addr: usize, size: usize) -> (r: bool)
    ensures
        r == in_bounds(mem@.len(), addr as int, size as int),
        r ==> addr + size <= usize::MAX,
{
    let len = mem.len();
    addr <= len && size <= len - addr
}

impl SysWrite {
    /// The block at `addr`.
    pub open spec fn at(mem: Seq<u8>, addr: int) -> SysWrite {
        SysWrite { fd: i32_at(mem, addr), buf: u64_at(mem, addr + 4), len: u64_at(mem, addr + 12) }
    }

    /// Reads the block at `addr`, if it lies inside the memory.
    pub fn read_from(mem: &[u8], addr: usize) -> (r: Option<SysWrite>)
        ensures
            r is Some <==> in_bounds(mem@.len(), addr as int, SYS_WRITE_SIZE as int),
            r matches Some(block) ==> block == SysWrite::at(mem@, addr as int),
    {
        if !lies_inside(mem, addr, SYS_WRITE_SIZE) {
            return None;
        }
        Some(
            SysWrite {
                fd: read_i32(mem, addr),
                buf: read_u64(mem, addr + 4),
                len: read_u64(mem, addr + 12),
            },
        )
    }
}

impl SysRead {
    /// The block at `addr`.
    pub open spec fn at(mem: Seq<u8>, addr: int) -> SysRead {
        SysRead {
            fd: i32_at(mem, addr),
            buf: u64_at(mem, addr + 4),
            len: u64_at(mem, addr + 12),
            ret: i64_at(mem, addr + 20),
        }
    }

    /// Reads the block at `addr`, if it lies inside the memory.
    pub fn read_from(mem: &[u8], addr: usize) -> (r: Option<SysRead>)
        ensures
            r is Some <==> in_bounds(mem@.len(), addr as int, SYS_READ_SIZE as int),
            r matches Some(block) ==> block == SysRead::at(mem@, addr as int),
    {
        if !lies_inside(mem, addr, SYS_READ_SIZE) {
            return None;
        }
        Some(
            SysRead {
                fd: read_i32(mem, addr),
                buf: read_u64(mem, addr + 4),
                len: read_u64(mem, addr + 12),
                ret: read_i64(mem, addr + 20),
            },
        )
    }

    /// Writes the answer into the block at `addr`.
    pub fn write_back(&self, mem: &mut [u8], addr: usize)
        requires
            in_bounds(old(mem)@.len(), addr as int, SYS_READ_SIZE as int),
        ensures
            final(mem)@ == store_i64(old(mem)@, addr + 20, self.ret),
    {
        proof {
            lemma_addressable(mem);
        }
        write_i64(mem, addr + 20, self.ret);
    }
}

impl SysClose {
    /// The block at `addr`.
    pub open spec fn at(mem: Seq<u8>, addr: int) -> SysClose {
        SysClose { fd: i32_at(mem, addr), ret: i32_at(mem, addr + 4) }
    }

    /// Reads the block at `addr`, if it lies inside the memory.
    pub fn read_from(mem: &[u8], addr: usize) -> (r: Option<SysClose>)
        ensures
            r is Some <==> in_bounds(mem@.len(), addr as int, SYS_CLOSE_SIZE as int),
            r matches Some(block) ==> block == SysClose::at(mem@, addr as int),
    {
        if !lies_inside(mem, addr, SYS_CLOSE_SIZE) {
            return None;
        }
        Some(SysClose { fd: read_i32(mem, addr), ret: read_i32(mem, addr + 4) })
    }

    /// Writes the answer into the block at `addr`.
    pub fn write_back(&self, mem: &mut [u8], addr: usize)
        requires
            in_bounds(old(mem)@.len(), addr as int, SYS_CLOSE_SIZE as int),
        ensures
            final(mem)@ == store_i32(old(mem)@, addr + 4, self.ret),
    {
        proof {
            lemma_addressable(mem);
        }
        write_i32(mem, addr + 4, self.ret);
    }
}

impl SysOpen {
    /// The block at `addr`.
    pub open spec fn at(mem: Seq<u8>, addr: int) -> SysOpen {
        SysOpen {
            name: u64_at(mem, addr),
            flags: i32_at(mem, addr + 8),
            mode: i32_at(mem, addr + 12),
            ret: i32_at(mem, addr + 16),
        }
    }

    /// Reads the block at `addr`, if it lies inside the memory.
    pub fn read_from(mem: &[u8], addr: usize) -> (r: Option<SysOpen>)
        ensures
            r is Some <==> in_bounds(mem@.len(), addr as int, SYS_OPEN_SIZE as int),
            r matches Some(block) ==> block == SysOpen::at(mem@, addr as int),
    {
        if !lies_inside(mem, addr, SYS_OPEN_SIZE) {
            return None;
        }
        Some(
            SysOpen {
                name: read_u64(mem, addr),
                flags: read_i32(mem, addr + 8),
                mode: read_i32(mem, addr + 12),
                ret: read_i32(mem, addr + 16),
            },
        )
    }

    /// Writes the answer into the block at `addr`.
    pub fn write_back(&self, mem: &mut [u8], addr: usize)
        requires
            in_bounds(old(mem)@.len(), addr as int, SYS_OPEN_SIZE as int),
        ensures
            final(mem)@ == store_i32(old(mem)@, addr + 16, self.ret),
    {
        proof {
            lemma_addressable(mem);
        }
        write_i32(mem, addr + 16, self.ret);
    }
}

impl SysLseek {
    /// The block at `addr`.
    pub open spec fn at(mem: Seq<u8>, addr: int) -> SysLseek {
        SysLseek {
            fd: i32_at(mem, addr),
            offset: i64_at(mem, addr + 4),
            whence: i32_at(mem, addr + 12),
        }
    }

    /// Reads the block at `addr`, if it lies inside the memory.
    pub fn read_from(mem: &[u8], addr: usize) -> (r: Option<SysLseek>)
        ensures
            r is Some <==> in_bounds(mem@.len(), addr as int, SYS_LSEEK_SIZE as int),
            r matches Some(block) ==> block == SysLseek::at(mem@, addr as int),
    {
        if !lies_inside(mem, addr, SYS_LSEEK_SIZE) {
            return None;
        }
        Some(
            SysLseek {
                fd: read_i32(mem, addr),
                offset: read_i64(mem, addr + 4),
                whence: read_i32(mem, addr + 12),
            },
        )
    }

    /// Writes the answer into the block at `addr`.
    pub fn write_back(&self, mem: &mut [u8], addr: usize)
        requires
            in_bounds(old(mem)@.len(), addr as int, SYS_LSEEK_SIZE as int),
        ensures
            final(mem)@ == store_i64(old(mem)@, addr + 4, self.offset),
    {
        proof {
            lemma_addressable(mem);
        }
        write_i64(mem, addr + 4, self.offset);
    }
}

impl SysExit {
    /// The block at `addr`.
    pub open spec fn at(mem: Seq<u8>, addr: int) -> SysExit {
        SysExit { arg: i32_at(mem, addr) }
    }

    /// Reads the block at `addr`, if it lies inside the memory.
    pub fn read_from(mem: &[u8], addr: usize) -> (r: Option<SysExit>)
        ensures
            r is Some <==> in_bounds(mem@.len(), addr as int, SYS_EXIT_SIZE as int),
            r matches Some(block) ==> block == SysExit::at(mem@, addr as int),
    {
        if !lies_inside(mem, addr, SYS_EXIT_SIZE) {
            return None;
        }
        Some(SysExit { arg: read_i32(mem, addr) })
    }
}

impl SysCmdval {
    /// The block at `addr`.
    pub open spec fn at(mem: Seq<u8>, addr: int) -> SysCmdval {
        SysCmdval { argv: u64_at(mem, addr), envp: u64_at(mem, addr + 8) }
    }

    /// Reads the block at `addr`, if it lies inside the memory.
    pub fn read_from(mem: &[u8], addr: usize) -> (r: Option<SysCmdval>)
        ensures
            r is Some <==> in_bounds(mem@.len(), addr as int, SYS_CMDVAL_SIZE as int),
            r matches Some(block) ==> block == SysCmdval::at(mem@, addr as int),
    {
        if !lies_inside(mem, addr, SYS_CMDVAL_SIZE) {
            return None;
        }
        Some(SysCmdval { argv: read_u64(mem, addr), envp: read_u64(mem, addr + 8) })
    }
}

impl SysUnlink {
    /// The block at `addr`.
    pub open spec fn at(mem: Seq<u8>, addr: int) -> SysUnlink {
        SysUnlink { name: u64_at(mem, addr), ret: i32_at(mem, addr + 8) }
    }

    /// Reads the block at `addr`, if it lies inside the memory.
    pub fn read_from(mem: &[u8], addr: usize) -> (r: Option<SysUnlink>)
        ensures
            r is Some <==> in_bounds(mem@.len(), addr as int, SYS_UNLINK_SIZE as int),
            r matches Some(block) ==> block == SysUnlink::at(mem@, addr as int),
    {
        if !lies_inside(mem, addr, SYS_UNLINK_SIZE) {
            return None;
        }
        Some(SysUnlink { name: read_u64(mem, addr), ret: read_i32(mem, addr + 8) })
    }

    /// Writes the answer into the block at `addr`.
    pub fn write_back(&self, mem: &mut [u8], addr: usize)
        requires
            in_bounds(old(mem)@.len(), addr as int, SYS_UNLINK_SIZE as int),
        ensures
            final(mem)@ == store_i32(old(mem)@, addr + 8, self.ret),
    {
        proof {
            lemma_addressable(mem);
        }
        write_i32(mem, addr + 8, self.ret);
    }
}

/// Offset of the number of the arguments in `SysCmdsize`.
pub const CMDSIZE_ARGC: usize = 0;

/// Offset of the sizes of the arguments.
pub const CMDSIZE_ARGSZ: usize = 4;

/// Offset of the number of the environment variables.
pub const CMDSIZE_ENVC: usize = 516;

/// Offset of the sizes of the environment variables.
pub const CMDSIZE_ENVSZ: usize = 520;

impl SysCmdsize {
    /// Whether the block at `addr` of `mem` holds what `self` holds.
    pub open spec fn is_at(&self, mem: Seq<u8>, addr: int) -> bool {
        &&& i32_at(mem, addr + CMDSIZE_ARGC) == self.argc
        &&& i32_at(mem, addr + CMDSIZE_ENVC) == self.envc
        &&& forall|i: int|
            0 <= i < 128 ==> i32_at(mem, addr + CMDSIZE_ARGSZ + 4 * i) == #[trigger] self.argsz@[i]
        &&& forall|i: int|
            0 <= i < 128 ==> i32_at(mem, addr + CMDSIZE_ENVSZ + 4 * i) == #[trigger] self.envsz@[i]
    }

    /// A block of zeros.
    pub fn new() -> (r: SysCmdsize)
        ensures
            r.argc == 0,
            r.envc == 0,
            forall|i: int| 0 <= i < 128 ==> r.argsz@[i] == 0,
            forall|i: int| 0 <= i < 128 ==> r.envsz@[i] == 0,
    {
        SysCmdsize { argc: 0, argsz: [0i32; 128], envc: 0, envsz: [0i32; 128] }
    }

    /// Reads the block at `addr`, if it lies inside the memory.
    pub fn read_from(mem: &[u8], addr: usize) -> (r: Option<SysCmdsize>)
        ensures
            r is Some <==> in_bounds(mem@.len(), addr as int, SYS_CMDSIZE_SIZE as int),
            r matches Some(block) ==> block.is_at(mem@, addr as int),
    {
        if !lies_inside(mem, addr, SYS_CMDSIZE_SIZE) {
            return None;
        }
        let mut block = SysCmdsize::new();
        block.argc = read_i32(mem, addr + CMDSIZE_ARGC);
        block.envc = read_i32(mem, addr + CMDSIZE_ENVC);
        let mut i: usize = 0;
        while i < 128
            invariant
                i <= 128,
                in_bounds(mem@.len(), addr as int, SYS_CMDSIZE_SIZE as int),
                addr + SYS_CMDSIZE_SIZE <= usize::MAX,
                block.argc == i32_at(mem@, addr + CMDSIZE_ARGC),
                block.envc == i32_at(mem@, addr + CMDSIZE_ENVC),
                forall|j: int|
                    0 <= j < i ==> i32_at(mem@, addr + CMDSIZE_ARGSZ + 4 * j) == #[trigger] block.argsz@[j],
                forall|j: int|
                    0 <= j < i ==> i32_at(mem@, addr + CMDSIZE_ENVSZ + 4 * j) == #[trigger] block.envsz@[j],
            decreases 128 - i,
        {
            block.argsz[i] = read_i32(mem, addr + CMDSIZE_ARGSZ + 4 * i);
            block.envsz[i] = read_i32(mem, addr + CMDSIZE_ENVSZ + 4 * i);
            i += 1;
        }
        Some(block)
    }
}

/// Stores one word of a block: no other word and no byte outside of it
/// changes.
fn put_i32(mem: &mut [u8], addr: usize, value: i32)
    requires
        in_bounds(old(mem)@.len(), addr as int, 4),
    ensures
        final(mem)@.len() == old(mem)@.len(),
        i32_at(final(mem)@, addr as int) == value,
        forall|at: int|
            (0 <= at && at + 4 <= addr) || (addr + 4 <= at && at + 4 <= old(mem)@.len()) ==> i32_at(
                final(mem)@,
                at,
            ) == #[trigger] i32_at(old(mem)@, at),
        forall|i: int|
            0 <= i < old(mem)@.len() && !(addr <= i < addr + 4) ==> final(mem)@[i] == old(mem)@[i],
{
    write_i32(mem, addr, value);
    proof {
        lemma_auto_spec_u32_to_from_le_bytes();
        lemma_signed_round_trip(old(mem)@, addr as int);
        lemma_store(old(mem)@, addr as int, spec_u32_to_le_bytes(value as u32));
        assert forall|at: int|
            (0 <= at && at + 4 <= addr) || (addr + 4 <= at && at + 4 <= old(mem)@.len()) implies i32_at(
            mem@,
            at,
        ) == #[trigger] i32_at(old(mem)@, at) by {
            lemma_load_apart(old(mem)@, addr as int, spec_u32_to_le_bytes(value as u32), at, 4);
        }
    }
}

impl SysCmdsize {
    /// Writes the block to `addr`.
    pub fn write_to(&self, mem: &mut [u8], addr: usize)
        requires
            in_bounds(old(mem)@.len(), addr as int, SYS_CMDSIZE_SIZE as int),
        ensures
            final(mem)@.len() == old(mem)@.len(),
            self.is_at(final(mem)@, addr as int),
            forall|i: int|
                0 <= i < old(mem)@.len() && !(addr <= i < addr + SYS_CMDSIZE_SIZE) ==> final(mem)@[i]
                    == old(mem)@[i],
    {
        proof {
            lemma_addressable(mem);
        }
        put_i32(mem, addr + CMDSIZE_ARGC, self.argc);
        put_i32(mem, addr + CMDSIZE_ENVC, self.envc);
        let mut i: usize = 0;
        while i < 128
            invariant
                i <= 128,
                mem@.len() == old(mem)@.len(),
                mem@.len() <= usize::MAX,
                in_bounds(mem@.len(), addr as int, SYS_CMDSIZE_SIZE as int),
                i32_at(mem@, addr + CMDSIZE_ARGC) == self.argc,
                i32_at(mem@, addr + CMDSIZE_ENVC) == self.envc,
                forall|j: int|
                    0 <= j < i ==> i32_at(mem@, addr + CMDSIZE_ARGSZ + 4 * j) == #[trigger] self.argsz@[j],
                forall|j: int|
                    0 <= j < i ==> i32_at(mem@, addr + CMDSIZE_ENVSZ + 4 * j) == #[trigger] self.envsz@[j],
                forall|k: int|
                    0 <= k < old(mem)@.len() && !(addr <= k < addr + SYS_CMDSIZE_SIZE) ==> mem@[k]
                        == old(mem)@[k],
            decreases 128 - i,
        {
            let ghost before = mem@;
            put_i32(mem, addr + CMDSIZE_ARGSZ + 4 * i, self.argsz[i]);
            let ghost between = mem@;
            put_i32(mem, addr + CMDSIZE_ENVSZ + 4 * i, self.envsz[i]);
            proof {
                assert forall|j: int| 0 <= j < i + 1 implies i32_at(
                    mem@,
                    addr + CMDSIZE_ARGSZ + 4 * j,
                ) == #[trigger] self.argsz@[j] by {
                    assert(i32_at(mem@, addr + CMDSIZE_ARGSZ + 4 * j) == i32_at(
                        between,
                        addr + CMDSIZE_ARGSZ + 4 * j,
                    ));
                    if j < i {
                        assert(i32_at(between, addr + CMDSIZE_ARGSZ + 4 * j) == i32_at(
                            before,
                            addr + CMDSIZE_ARGSZ + 4 * j,
                        ));
                    }
                }
                assert forall|j: int| 0 <= j < i + 1 implies i32_at(
                    mem@,
                    addr + CMDSIZE_ENVSZ + 4 * j,
                ) == #[trigger] self.envsz@[j] by {
                    if j < i {
                        assert(i32_at(mem@, addr + CMDSIZE_ENVSZ + 4 * j) == i32_at(
                            between,
                            addr + CMDSIZE_ENVSZ + 4 * j,
                        ));
                        assert(i32_at(between, addr + CMDSIZE_ENVSZ + 4 * j) == i32_at(
                            before,
                            addr + CMDSIZE_ENVSZ + 4 * j,
                        ));
                    }
                }
                assert(i32_at(mem@, addr + CMDSIZE_ARGC) == i32_at(between, addr + CMDSIZE_ARGC));
                assert(i32_at(between, addr + CMDSIZE_ARGC) == i32_at(before, addr + CMDSIZE_ARGC));
                assert(i32_at(mem@, addr + CMDSIZE_ENVC) == i32_at(between, addr + CMDSIZE_ENVC));
                assert(i32_at(between, addr + CMDSIZE_ENVC) == i32_at(before, addr + CMDSIZE_ENVC));
            }
            i += 1;
        }
    }
}

/// A request of the guest to the host.
#[derive(Clone, Copy, Debug, PartialEq, Eq, Structural)]
pub enum Hypercall {
    /// Write a byte to the console.
    Uart,
    /// Tell the sizes of arguments and environment.
    Cmdsize,
    /// Hand over arguments and environment.
    Cmdval,
    /// Open a file.
    Open,
    /// Close a file.
    Close,
    /// Read from a file.
    Read,
    /// Write to a file.
    Write,
    /// Seek in a file.
    Lseek,
    /// Remove a file.
    Unlink,
    /// End the guest.
    Exit,
    /// Send the frames that wait in the queue.
    Netinfo,
}

/// The request that a write to the I/O port `port` stands for.
pub open spec fn hypercall_of(port: u16) -> Option<Hypercall> {
    if port == UHYVE_UART_PORT {
        Some(Hypercall::Uart)
    } else if port == UHYVE_PORT_CMDSIZE {
        Some(Hypercall::Cmdsize)
    } else if port == UHYVE_PORT_CMDVAL {
        Some(Hypercall::Cmdval)
    } else if port == UHYVE_PORT_OPEN {
        Some(Hypercall::Open)
    } else if port == UHYVE_PORT_CLOSE {
        Some(Hypercall::Close)
    } else if port == UHYVE_PORT_READ {
        Some(Hypercall::Read)
    } else if port == UHYVE_PORT_WRITE {
        Some(Hypercall::Write)
    } else if port == UHYVE_PORT_LSEEK {
        Some(Hypercall::Lseek)
    } else if port == UHYVE_PORT_UNLINK {
        Some(Hypercall::Unlink)
    } else if port == UHYVE_PORT_EXIT {
        Some(Hypercall::Exit)
    } else if port == UHYVE_PORT_NETINFO {
        Some(Hypercall::Netinfo)
    } else {
        None
    }
}

impl Hypercall {
    /// The request that a write to the I/O port `port` stands for; none for
    /// a port that no hypercall has.
    pub fn from_port(port: u16) -> (r: Option<Hypercall>)
        ensures
            r == hypercall_of(port),
    {
        if port == UHYVE_UART_PORT {
            Some(Hypercall::Uart)
        } else if port == UHYVE_PORT_CMDSIZE {
            Some(Hypercall::Cmdsize)
        } else if port == UHYVE_PORT_CMDVAL {
            Some(Hypercall::Cmdval)
        } else if port == UHYVE_PORT_OPEN {
            Some(Hypercall::Open)
        } else if port == UHYVE_PORT_CLOSE {
            Some(Hypercall::Close)
        } else if port == UHYVE_PORT_READ {
            Some(Hypercall::Read)
        } else if port == UHYVE_PORT_WRITE {
            Some(Hypercall::Write)
        } else if port == UHYVE_PORT_LSEEK {
            Some(Hypercall::Lseek)
        } else if port == UHYVE_PORT_UNLINK {
            Some(Hypercall::Unlink)
        } else if port == UHYVE_PORT_EXIT {
            Some(Hypercall::Exit)
        } else if port == UHYVE_PORT_NETINFO {
            Some(Hypercall::Netinfo)
        } else {
            None
        }
    }
}

} // verus!
