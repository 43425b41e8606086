//! The state of one virtual processor, and what it makes of the guest's
//! writes to the I/O ports of the hypercalls.

use vstd::prelude::*;
use crate::hypercall::{
    hypercall_of, Hypercall, SysClose, SysCmdval, SysExit, SysLseek, SysOpen, SysRead, SysUnlink,
    SysWrite, SYS_CLOSE_SIZE, SYS_CMDSIZE_SIZE, SYS_CMDVAL_SIZE, SYS_EXIT_SIZE, SYS_LSEEK_SIZE,
    SYS_OPEN_SIZE, SYS_READ_SIZE, SYS_UNLINK_SIZE, SYS_WRITE_SIZE,
};
use crate::mem::{in_bounds, read_u32, u32_at};
use crate::paging::virt_to_phys;
use crate::vm::{buffer_of, text_at, VcpuStopReason, VirtualCPU};

verus! {

/// One processor of the guest.
#[derive(Debug)]
pub struct UhyveCPU {
    id: u32,
    kernel_path: Vec<u8>,
    args: Vec<Vec<u8>>,
    vm_start: usize,
}

/// What the host is to do for a write of the guest to an I/O port.
#[derive(Debug)]
pub enum Request {
    /// Write the bytes to standard output.
    Uart(Vec<u8>),
    /// Tell the sizes of arguments and environment in the block at `block`.
    Cmdsize { block: usize },
    /// Hand over arguments and environment as the block says.
    Cmdval(SysCmdval),
    /// Open the file `name` for the block at `block`.
    Open { block: usize, sysopen: SysOpen, name: Vec<u8> },
    /// Close a file for the block at `block`.
    Close { block: usize, sysclose: SysClose },
    /// Read from a file into the guest memory at `buf` for the block at
    /// `block`.
    Read { block: usize, sysread: SysRead, buf: usize },
    /// Write to a file as the block says.
    Write(SysWrite),
    /// Seek in a file for the block at `block`.
    Lseek { block: usize, syslseek: SysLseek },
    /// Remove the file `name` for the block at `block`.
    Unlink { block: usize, sysunlink: SysUnlink, name: Vec<u8> },
    /// Stop the processor.
    Stop(VcpuStopReason),
    /// Wake the worker that sends the guest's frames.
    Netinfo,
    /// The guest has asked for what does not exist, or has pointed outside
    /// of its memory: the processor has crashed.
    Crash,
}

/// The address that the guest has written to an I/O port: the four bytes, the
/// lowest first.
pub open spec fn data_address(data: Seq<u8>) -> Option<usize> {
    if data.len() >= 4 {
        Some(u32_at(data, 0) as usize)
    } else {
        None
    }
}

/// Whether `request` is what the guest asks for by writing `data` to the
/// I/O port `port`, with its memory as `mem` shows it. The console takes
/// the bytes as they are; every other port takes the physical address of a
/// block of arguments. The addresses in the blocks are virtual ones, which
/// the page tables of the guest translate. A port without a hypercall, a
/// block outside the memory, and a path or a buffer that is not mapped or
/// does not end inside the memory crash the processor.
pub open spec fn is_request_of(request: Request, mem: Seq<u8>, port: u16, data: Seq<u8>) -> bool {
    match hypercall_of(port) {
        None => request is Crash,
        Some(Hypercall::Uart) => request matches Request::Uart(bytes) && bytes@ == data,
        Some(Hypercall::Netinfo) => request is Netinfo,
        Some(call) => match data_address(data) {
            None => request is Crash,
            Some(block) => match call {
                Hypercall::Cmdsize => if in_bounds(mem.len(), block as int, SYS_CMDSIZE_SIZE as int) {
                    request matches Request::Cmdsize { block: b } && b == block
                } else {
                    request is Crash
                },
                Hypercall::Cmdval => if in_bounds(mem.len(), block as int, SYS_CMDVAL_SIZE as int) {
                    request matches Request::Cmdval(args) && args == SysCmdval::at(mem, block as int)
                } else {
                    request is Crash
                },
                Hypercall::Open => if in_bounds(mem.len(), block as int, SYS_OPEN_SIZE as int)
                    && text_at(mem, SysOpen::at(mem, block as int).name) is Some {
                    request matches Request::Open { block: b, sysopen, name } && b == block
                        && sysopen == SysOpen::at(mem, block as int) && Some(name@) == text_at(
                        mem,
                        sysopen.name,
                    )
                } else {
                    request is Crash
                },
                Hypercall::Close => if in_bounds(mem.len(), block as int, SYS_CLOSE_SIZE as int) {
                    request matches Request::Close { block: b, sysclose } && b == block && sysclose
                        == SysClose::at(mem, block as int)
                } else {
                    request is Crash
                },
                Hypercall::Read => if in_bounds(mem.len(), block as int, SYS_READ_SIZE as int)
                    && buffer_of(
                    mem,
                    SysRead::at(mem, block as int).buf,
                    SysRead::at(mem, block as int).len,
                ) is Some {
                    request matches Request::Read { block: b, sysread, buf } && b == block
                        && sysread == SysRead::at(mem, block as int) && Some(buf) == buffer_of(
                        mem,
                        sysread.buf,
                        sysread.len,
                    )
                } else {
                    request is Crash
                },
                Hypercall::Write => if in_bounds(mem.len(), block as int, SYS_WRITE_SIZE as int) {
                    request matches Request::Write(args) && args == SysWrite::at(mem, block as int)
                } else {
                    request is Crash
                },
                Hypercall::Lseek => if in_bounds(mem.len(), block as int, SYS_LSEEK_SIZE as int) {
                    request matches Request::Lseek { block: b, syslseek } && b == block && syslseek
                        == SysLseek::at(mem, block as int)
                } else {
                    request is Crash
                },
                Hypercall::Unlink => if in_bounds(mem.len(), block as int, SYS_UNLINK_SIZE as int)
                    && text_at(mem, SysUnlink::at(mem, block as int).name) is Some {
                    request matches Request::Unlink { block: b, sysunlink, name } && b == block
                        && sysunlink == SysUnlink::at(mem, block as int) && Some(name@) == text_at(
                        mem,
                        sysunlink.name,
                    )
                } else {
                    request is Crash
                },
                Hypercall::Exit => if in_bounds(mem.len(), block as int, SYS_EXIT_SIZE as int) {
                    request matches Request::Stop(reason) && reason == VcpuStopReason::Exit(
                        SysExit::at(mem, block as int).arg,
                    )
                } else {
                    request is Crash
                },
                _ => request is Crash,
            },
        },
    }
}

/// Reads the address that the guest has written to an I/O port.
fn read_data_address(data: &[u8]) -> (r: Option<usize>)
    ensures
        r == data_address(data@),
{
    if data.len() >= 4 {
        Some(read_u32(data, 0) as usize)
    } else {
        None
    }
}

/// A copy of `data`.
fn copy_of(data: &[u8]) -> (r: Vec<u8>)
    ensures
        r@ == data@,
{
    let r = crate::mem::read_bytes(data, 0, data.len());
    assert(r@ =~= data@);
    r
}

impl UhyveCPU {
    /// The number of the processor.
    pub closed spec fn id(&self) -> u32 {
        self.id
    }

    /// The processor `id` of a guest whose memory the host sees from
    /// `vm_start` on, for the kernel at `kernel_path` and an application that
    /// is started with `args`.
    pub fn new(id: u32, kernel_path: Vec<u8>, args: Vec<Vec<u8>>, vm_start: usize) -> (r: UhyveCPU)
        ensures
            r.id() == id,
            r.path() == kernel_path@,
            r.arguments() == args@,
            r.vm_start() == vm_start,
    {
        UhyveCPU { id, kernel_path, args, vm_start }
    }

    /// Returns the number of the processor.
    pub fn get_id(&self) -> (r: u32)
        ensures
            r == self.id(),
    {
        self.id
    }

    /// Says what the host is to do for the guest's write of `data` to the
    /// I/O port `port`.
    pub fn request(&self, mem: &[u8], port: u16, data: &[u8]) -> (r: Request)
        ensures
            is_request_of(r, mem@, port, data@),
    {
        let call = match Hypercall::from_port(port) {
            Some(call) => call,
            None => {
                return Request::Crash;
            },
        };
        match call {
            Hypercall::Uart => {
                return Request::Uart(copy_of(data));
            },
            Hypercall::Netinfo => {
                return Request::Netinfo;
            },
            _ => {},
        }
        let block = match read_data_address(data) {
            Some(block) => block,
            None => {
                return Request::Crash;
            },
        };
        match call {
            Hypercall::Cmdsize => {
                let size = mem.len();
                if block <= size && SYS_CMDSIZE_SIZE <= size - block {
                    Request::Cmdsize { block }
                } else {
                    Request::Crash
                }
            },
            Hypercall::Cmdval => match SysCmdval::read_from(mem, block) {
                Some(args) => Request::Cmdval(args),
                None => Request::Crash,
            },
            Hypercall::Open => match SysOpen::read_from(mem, block) {
                Some(sysopen) => match self.text(mem, sysopen.name) {
                    Some(name) => Request::Open { block, sysopen, name },
                    None => Request::Crash,
                },
                None => Request::Crash,
            },
            Hypercall::Close => match SysClose::read_from(mem, block) {
                Some(sysclose) => Request::Close { block, sysclose },
                None => Request::Crash,
            },
            Hypercall::Read => match SysRead::read_from(mem, block) {
                Some(sysread) => match self.read_buffer(mem, &sysread) {
                    Some(buf) => Request::Read { block, sysread, buf },
                    None => Request::Crash,
                },
                None => Request::Crash,
            },
            Hypercall::Write => match SysWrite::read_from(mem, block) {
                Some(args) => Request::Write(args),
                None => Request::Crash,
            },
            Hypercall::Lseek => match SysLseek::read_from(mem, block) {
                Some(syslseek) => Request::Lseek { block, syslseek },
                None => Request::Crash,
            },
            Hypercall::Unlink => match SysUnlink::read_from(mem, block) {
                Some(sysunlink) => match self.text(mem, sysunlink.name) {
                    Some(name) => Request::Unlink { block, sysunlink, name },
                    None => Request::Crash,
                },
                None => Request::Crash,
            },
            Hypercall::Exit => match SysExit::read_from(mem, block) {
                Some(sysexit) => Request::Stop(VcpuStopReason::Exit(self.exit(&sysexit))),
                None => Request::Crash,
            },
            _ => Request::Crash,
        }
    }
}

impl VirtualCPU for UhyveCPU {
    closed spec fn vm_start(&self) -> usize {
        self.vm_start
    }

    closed spec fn path(&self) -> Seq<u8> {
        self.kernel_path@
    }

    closed spec fn arguments(&self) -> Seq<Vec<u8>> {
        self.args@
    }

    fn host_address(&self, addr: usize) -> (r: usize) {
        addr + self.vm_start
    }

    fn virt_to_phys(&self, mem: &[u8], addr: u64) -> (r: Option<u64>) {
        virt_to_phys(mem, addr)
    }

    fn kernel_path(&self) -> (r: &Vec<u8>) {
        &self.kernel_path
    }

    fn args(&self) -> (r: &Vec<Vec<u8>>) {
        &self.args
    }
}

/// The exit hypercall ends the run of the processor with the status that
/// the guest has handed over: whatever the guest has stored as the argument
/// of the hypercall is the exit code that running the processor returns.
pub proof fn lemma_exit_code(request: Request, mem: Seq<u8>, data: Seq<u8>, block: usize)
    requires
        is_request_of(request, mem, crate::consts::UHYVE_PORT_EXIT, data),
        data_address(data) == Some(block),
        in_bounds(mem.len(), block as int, SYS_EXIT_SIZE as int),
    ensures
        request matches Request::Stop(reason) && crate::vm::run_result(reason) == Some(
            SysExit::at(mem, block as int).arg,
        ),
{
}

} // verus!
