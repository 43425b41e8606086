//! What a virtual machine is to the loader, and the loading of a kernel.

use vstd::prelude::*;
use vstd::string::StringExecFns;
use crate::boot_info::{octets_or, uart_port, BootInfo, NetInfo, TlsInfo, UHYVE_FEATURES};
use crate::consts::{
    BOOT_INFO_ADDR, DYNAMIC_LOAD_BASE, KERNEL_STACK_SIZE, MAX_ARGC, MAX_ENVC, MINIMUM_MEMORY_SIZE,
    STATIC_LOAD_BASE,
};
use crate::elf::{note_headers, parse_elf, parsed_elf, read_notes, ElfImage, Notes, ET_DYN};
use crate::hypercall::{
    SysClose, SysCmdsize, SysCmdval, SysExit, SysLseek, SysOpen, SysRead, SysUnlink, SysWrite,
};
use crate::loader::{
    apply_relas, check_image, entry_point, image_defect, load_base, load_segments, place_headers,
    relocate, InvalidImage, LoadFailure,
};
use crate::mem::{
    c_string_at, copy_into, in_bounds, lemma_addressable, read_c_string, read_u64, store, u64_at,
};
use crate::paging::{
    has_boot_tables, host_address_of, is_boot_table_byte, translate, BOOT_TABLES_END,
};
use crate::params::Ipv4Address;
use crate::vcpu::UhyveCPU;

verus! {

/// Why a kernel is not loaded.
#[derive(Debug)]
pub enum LoadKernelError {
    /// The parser rejects the file.
    Goblin(goblin::error::Error),
    /// The parser accepts the file, but it holds no kernel that this loader
    /// starts.
    InvalidImage(InvalidImage),
    /// The guest memory is not large enough.
    InsufficientMemory,
}

/// What a virtual machine shows of itself.
pub struct VmState {
    /// Number of the processors.
    pub num_cpus: u32,
    /// Host address of the guest memory.
    pub host_address: usize,
    /// Size of the guest memory in bytes.
    pub memory_size: usize,
    /// Load base of the kernel.
    pub offset: u64,
    /// Address at which the guest starts to run.
    pub entry_point: u64,
    /// Path of the kernel on the host.
    pub kernel_path: Seq<u8>,
    /// Host address of the boot information, once a kernel is loaded.
    pub boot_info: Option<usize>,
    /// Address of the guest.
    pub ip: Option<Ipv4Address>,
    /// Address of the gateway.
    pub gateway: Option<Ipv4Address>,
    /// Network mask.
    pub mask: Option<Ipv4Address>,
    /// Whether the guest is to write to the console.
    pub verbose: bool,
}

impl VmState {
    /// Whether the guest memory is one that a kernel can be loaded into: of
    /// the smallest size at least, and inside the address space of the host.
    pub open spec fn has_memory(self) -> bool {
        &&& self.memory_size >= MINIMUM_MEMORY_SIZE
        &&& self.host_address + self.memory_size <= usize::MAX
    }
}

/// What loading a kernel comes to.
pub struct Loaded {
    /// The virtual machine afterwards.
    pub vm: VmState,
    /// The guest memory afterwards.
    pub mem: Seq<u8>,
    /// Size of the image.
    pub image_size: u64,
    /// The template of thread-local storage.
    pub tls_info: TlsInfo,
    /// Why the kernel is not loaded, if it is not.
    pub failure: Option<LoadFailure>,
}

/// What comes of loading the parsed image `elf` of the file `file` into the
/// memory `mem` of the machine `vm`. An image with a defect changes
/// nothing. Otherwise load base and entry point are set, the segments are
/// placed and then the relocations applied, each up to the first that fails.
/// Where none fails, the machine notes the place of the boot information.
pub open spec fn load_outcome(
    vm: VmState,
    mem: Seq<u8>,
    file: Seq<u8>,
    elf: ElfImage,
    notes: Notes,
) -> Loaded {
    match image_defect(elf, notes) {
        Some(defect) => Loaded {
            vm,
            mem,
            image_size: 0,
            tls_info: TlsInfo::none(),
            failure: Some(LoadFailure::Invalid(defect)),
        },
        None => {
            let dynamic = elf.is_dyn();
            let base = load_base(dynamic);
            let started = VmState {
                offset: base,
                entry_point: entry_point(dynamic, elf.entry) as u64,
                ..vm
            };
            let placed = place_headers(
                mem,
                file,
                dynamic,
                elf.program_headers@,
                elf.program_headers@.len(),
            );
            let relocated = apply_relas(placed.mem, base, elf.dynrelas@, elf.dynrelas@.len());
            if placed.failure is Some {
                Loaded {
                    vm: started,
                    mem: placed.mem,
                    image_size: placed.image_size,
                    tls_info: placed.tls_info,
                    failure: placed.failure,
                }
            } else if relocated.failure is Some {
                Loaded {
                    vm: started,
                    mem: relocated.mem,
                    image_size: placed.image_size,
                    tls_info: placed.tls_info,
                    failure: relocated.failure,
                }
            } else {
                Loaded {
                    vm: VmState {
                        boot_info: Some((vm.host_address + BOOT_INFO_ADDR) as usize),
                        ..started
                    },
                    mem: relocated.mem,
                    image_size: placed.image_size,
                    tls_info: placed.tls_info,
                    failure: None,
                }
            }
        },
    }
}

/// Whether `info` is the boot information of the loaded kernel `loaded`,
/// booted at the time `boot_gtod` on a processor of `cpu_freq` MHz.
pub open spec fn is_boot_info_of(info: BootInfo, loaded: Loaded, boot_gtod: u64, cpu_freq: u32) -> bool {
    &&& info.base == loaded.vm.offset
    &&& info.limit == loaded.vm.memory_size
    &&& info.image_size == loaded.image_size
    &&& info.tls_info == loaded.tls_info
    &&& info.current_stack_address == loaded.vm.offset - KERNEL_STACK_SIZE
    &&& info.host_logical_addr == loaded.vm.host_address
    &&& info.boot_gtod == boot_gtod
    &&& info.cpu_freq == cpu_freq
    &&& info.possible_cpus == 1
    &&& info.uartport == uart_port(loaded.vm.verbose)
    &&& info.uhyve == UHYVE_FEATURES
    &&& info.net_info.ip@ == octets_or(loaded.vm.ip, seq![255u8, 255u8, 255u8, 255u8])
    &&& info.net_info.gateway@ == octets_or(loaded.vm.gateway, seq![255u8, 255u8, 255u8, 255u8])
    &&& info.net_info.mask@ == octets_or(loaded.vm.mask, seq![255u8, 255u8, 255u8, 0u8])
}

/// The error that stands for a failure of the loader.
pub open spec fn error_of(failure: LoadFailure) -> LoadKernelError {
    match failure {
        LoadFailure::Invalid(defect) => LoadKernelError::InvalidImage(defect),
        LoadFailure::InsufficientMemory => LoadKernelError::InsufficientMemory,
    }
}

/// The text of a `goblin::error::Error`, as its `Display` gives it. Nothing
/// is claimed of the text.
#[verifier::external_body]
fn goblin_error_text(e: &goblin::error::Error) -> (r: String) {
    e.to_string()
}

/// The processor frequency in MHz that the guest is told: what the
/// processor says of its time stamp counter, else what the hypervisor above
/// says, else what the operating system of the host reports, else zero.
pub fn cpu_frequency(cpuid: Option<u32>, hypervisor: Option<u32>, os: Option<u32>) -> (r: u32)
    ensures
        r == (match (cpuid, hypervisor, os) {
            (Some(mhz), _, _) => mhz,
            (None, Some(mhz), _) => mhz,
            (None, None, Some(mhz)) => mhz,
            (None, None, None) => 0,
        }),
{
    match cpuid {
        Some(mhz) => mhz,
        None => match hypervisor {
            Some(mhz) => mhz,
            None => match os {
                Some(mhz) => mhz,
                None => 0,
            },
        },
    }
}

impl LoadKernelError {
    /// What the error says.
    pub fn to_string(&self) -> (r: String)
        ensures
            self is InsufficientMemory ==> r@ == "guest memory size is not large enough"@,
            self is InvalidImage ==> r@ == "invalid data"@,
    {
        match self {
            LoadKernelError::Goblin(e) => goblin_error_text(e),
            LoadKernelError::InvalidImage(_) => String::from_str("invalid data"),
            LoadKernelError::InsufficientMemory => String::from_str(
                "guest memory size is not large enough",
            ),
        }
    }

    /// The error that stands for a failure of the loader.
    pub fn from_failure(failure: LoadFailure) -> (r: LoadKernelError)
        ensures
            r == error_of(failure),
    {
        match failure {
            LoadFailure::Invalid(defect) => LoadKernelError::InvalidImage(defect),
            LoadFailure::InsufficientMemory => LoadKernelError::InsufficientMemory,
        }
    }
}

/// A virtual machine, as far as the loader needs it.
pub trait Vm {
    /// What the machine shows of itself.
    spec fn state(&self) -> VmState;

    /// Returns the number of cores for the vm.
    fn num_cpus(&self) -> (r: u32)
        ensures
            r == self.state().num_cpus,
    ;

    /// Returns the host address of the guest memory and the size of the
    /// memory in bytes.
    fn guest_mem(&self) -> (r: (usize, usize))
        ensures
            r.0 == self.state().host_address,
            r.1 == self.state().memory_size,
    ;

    /// Sets the load base of the kernel.
    fn set_offset(&mut self, offset: u64)
        ensures
            final(self).state() == (VmState { offset, ..old(self).state() }),
    ;

    /// Returns the section offsets relative to their base addresses.
    fn get_offset(&self) -> (r: u64)
        ensures
            r == self.state().offset,
    ;

    /// Sets the elf entry point.
    fn set_entry_point(&mut self, entry: u64)
        ensures
            final(self).state() == (VmState { entry_point: entry, ..old(self).state() }),
    ;

    /// Returns the elf entry point.
    fn get_entry_point(&self) -> (r: u64)
        ensures
            r == self.state().entry_point,
    ;

    /// Returns the path of the kernel on the host.
    fn kernel_path(&self) -> (r: &Vec<u8>)
        ensures
            r@ == self.state().kernel_path,
    ;

    /// Makes the state of the processor `id`.
    fn create_cpu(&self, id: u32) -> (r: UhyveCPU)
        ensures
            r.id() == id,
            r.vm_start() == self.state().host_address,
            r.path() == self.state().kernel_path,
            r.arguments().len() == 0,
    ;

    /// Notes the host address of the boot information.
    fn set_boot_info(&mut self, header: usize)
        ensures
            final(self).state() == (VmState { boot_info: Some(header), ..old(self).state() }),
    ;

    /// Returns the host address of the boot information, once a kernel is
    /// loaded.
    fn boot_info(&self) -> (r: Option<usize>)
        ensures
            r == self.state().boot_info,
    ;

    /// Returns the address of the guest.
    fn get_ip(&self) -> (r: Option<Ipv4Address>)
        ensures
            r == self.state().ip,
    ;

    /// Returns the address of the gateway.
    fn get_gateway(&self) -> (r: Option<Ipv4Address>)
        ensures
            r == self.state().gateway,
    ;

    /// Returns the network mask.
    fn get_mask(&self) -> (r: Option<Ipv4Address>)
        ensures
            r == self.state().mask,
    ;

    /// Returns whether the guest is to write to the console.
    fn verbose(&self) -> (r: bool)
        ensures
            r == self.state().verbose,
    ;

    /// Initialize the descriptor table and the page tables for the guest.
    fn init_guest_mem(&self, mem: &mut [u8])
        requires
            old(mem)@.len() >= BOOT_TABLES_END,
        ensures
            final(mem)@.len() == old(mem)@.len(),
            has_boot_tables(final(mem)@),
            forall|i: int|
                0 <= i < old(mem)@.len() && !is_boot_table_byte(i) ==> final(mem)@[i] == old(
                    mem,
                )@[i],
    ;

    /// Loads the parsed image `elf` of the file `file` into the guest memory
    /// and returns the boot information for it.
    fn load_image(
        &mut self,
        mem: &mut [u8],
        file: &[u8],
        elf: &ElfImage,
        notes: &Notes,
        boot_gtod: u64,
        cpu_freq: u32,
    ) -> (r: Result<BootInfo, LoadFailure>)
        requires
            old(self).state().has_memory(),
            old(mem)@.len() == old(self).state().memory_size,
        ensures
            ({
                let loaded = load_outcome(old(self).state(), old(mem)@, file@, *elf, *notes);
                &&& final(self).state() == loaded.vm
                &&& final(mem)@ == loaded.mem
                &&& match r {
                    Ok(info) => loaded.failure is None && is_boot_info_of(
                        info,
                        loaded,
                        boot_gtod,
                        cpu_freq,
                    ),
                    Err(failure) => loaded.failure == Some(failure),
                }
            }),
    {
        if let Some(defect) = check_image(elf, notes) {
            return Err(LoadFailure::Invalid(defect));
        }
        let (vm_mem, vm_mem_length) = self.guest_mem();
        let net_info = NetInfo::new(self.get_ip(), self.get_gateway(), self.get_mask());
        let is_dyn = elf.e_type == ET_DYN;
        let (start_address, elf_entry) = if is_dyn {
            (DYNAMIC_LOAD_BASE, DYNAMIC_LOAD_BASE + elf.entry)
        } else {
            (STATIC_LOAD_BASE, elf.entry)
        };
        self.set_offset(start_address);
        self.set_entry_point(elf_entry);
        let (image_size, tls_info) = match load_segments(mem, file, is_dyn, &elf.program_headers) {
            Ok(placed) => placed,
            Err(failure) => {
                return Err(failure);
            },
        };
        if let Err(failure) = relocate(mem, start_address, &elf.dynrelas) {
            return Err(failure);
        }
        let boot_info = BootInfo::new(
            start_address,
            vm_mem_length as u64,
            image_size,
            tls_info,
            vm_mem as u64,
            boot_gtod,
            cpu_freq,
            self.verbose(),
            net_info,
        );
        self.set_boot_info(vm_mem + BOOT_INFO_ADDR as usize);
        Ok(boot_info)
    }

    /// Loads the kernel in the file `image` into the guest memory and
    /// returns the boot information for it. What comes of it is what
    /// `load_image` makes of the image that the parser reads in the file; a
    /// file that the parser rejects changes nothing.
    fn load_kernel(&mut self, mem: &mut [u8], image: &[u8], boot_gtod: u64, cpu_freq: u32) -> (r:
        Result<BootInfo, LoadKernelError>)
        requires
            old(self).state().has_memory(),
            old(mem)@.len() == old(self).state().memory_size,
        ensures
            match parsed_elf(image@) {
                None => {
                    &&& r matches Err(LoadKernelError::Goblin(_))
                    &&& final(self).state() == old(self).state()
                    &&& final(mem)@ == old(mem)@
                },
                Some(elf) => {
                    let loaded = load_outcome(
                        old(self).state(),
                        old(mem)@,
                        image@,
                        elf,
                        note_headers(image@),
                    );
                    &&& final(self).state() == loaded.vm
                    &&& final(mem)@ == loaded.mem
                    &&& match r {
                        Ok(info) => loaded.failure is None && is_boot_info_of(
                            info,
                            loaded,
                            boot_gtod,
                            cpu_freq,
                        ),
                        Err(e) => loaded.failure matches Some(failure) && e == error_of(failure),
                    }
                },
            },
    {
        let elf = match parse_elf(image) {
            Ok(elf) => elf,
            Err(e) => {
                return Err(LoadKernelError::Goblin(e));
            },
        };
        let notes = read_notes(image);
        match self.load_image(mem, image, &elf, &notes, boot_gtod, cpu_freq) {
            Ok(info) => Ok(info),
            Err(failure) => Err(LoadKernelError::from_failure(failure)),
        }
    }
}

/// What is known of a processor that has stopped for the debugger.
#[derive(Clone, Copy, Debug, PartialEq, Eq, Structural)]
pub struct DebugExitInfo {
    /// Number of the exception.
    pub exception: u32,
    /// Address of the instruction.
    pub pc: u64,
    /// Debug status register.
    pub dr6: u64,
    /// Debug control register.
    pub dr7: u64,
}

/// Reasons for vCPU exits.
#[derive(Clone, Copy, Debug, PartialEq, Eq, Structural)]
pub enum VcpuStopReason {
    /// The vCPU stopped for debugging.
    Debug(DebugExitInfo),
    /// The vCPU exited with the specified exit code.
    Exit(i32),
    /// The vCPU got kicked.
    Kick,
}

/// What running a processor returns once it has stopped for `reason`: the
/// exit code of the guest, or nothing where the processor was kicked.
pub open spec fn run_result(reason: VcpuStopReason) -> Option<i32> {
    match reason {
        VcpuStopReason::Exit(code) => Some(code),
        _ => None,
    }
}

impl VcpuStopReason {
    /// What running the processor returns once it has stopped for good. A
    /// stop for the debugger is none: the debugger goes on from it.
    pub fn exit_code(&self) -> (r: Option<i32>)
        requires
            !(self is Debug),
        ensures
            r == run_result(*self),
    {
        match self {
            VcpuStopReason::Exit(code) => Some(*code),
            _ => None,
        }
    }
}

/// A variable of the environment: its name and its value.
pub type EnvVar = (Vec<u8>, Vec<u8>);

/// The text by which the guest is told a variable of the environment.
pub open spec fn env_text(var: EnvVar) -> Seq<u8> {
    var.0@ + seq![61u8] + var.1@
}

/// The number of the variables of the environment that the guest is told.
pub open spec fn env_count(env: Seq<EnvVar>) -> int {
    if env.len() < MAX_ENVC {
        env.len() as int
    } else {
        MAX_ENVC as int
    }
}

/// Whether the sizes of path, arguments and environment can be told in the
/// block that the guest has for them.
pub open spec fn sizes_fit(path: Seq<u8>, args: Seq<Vec<u8>>, env: Seq<EnvVar>) -> bool {
    &&& args.len() < MAX_ARGC
    &&& path.len() < i32::MAX
    &&& forall|i: int| 0 <= i < args.len() ==> (#[trigger] args[i])@.len() < i32::MAX
    &&& forall|i: int|
        0 <= i < env.len() ==> (#[trigger] env[i]).0@.len() + env[i].1@.len() + 2 <= i32::MAX
}

/// Whether `new` is what the size hypercall makes of `old` for the kernel at
/// `path`, started with `args` in the environment `env`: the path counts as
/// the first argument, every size counts the terminator, a variable counts
/// its equals sign too, and what is not needed stays as it is.
pub open spec fn is_cmdsize_of(
    new: SysCmdsize,
    old: SysCmdsize,
    path: Seq<u8>,
    args: Seq<Vec<u8>>,
    env: Seq<EnvVar>,
) -> bool {
    &&& new.argc == args.len() + 1
    &&& new.argsz@[0] == path.len() + 1
    &&& forall|i: int| 0 <= i < args.len() ==> new.argsz@[i + 1] == (#[trigger] args[i])@.len() + 1
    &&& forall|i: int| args.len() < i < 128 ==> #[trigger] new.argsz@[i] == old.argsz@[i]
    &&& new.envc == env_count(env)
    &&& forall|i: int|
        0 <= i < env_count(env) ==> new.envsz@[i] == (#[trigger] env[i]).0@.len() + env[i].1@.len()
            + 2
    &&& forall|i: int| env_count(env) <= i < 128 ==> #[trigger] new.envsz@[i] == old.envsz@[i]
}

/// How far texts are handed to the guest.
pub struct Handed {
    /// The guest memory.
    pub mem: Seq<u8>,
    /// Whether every text so far had a place inside the memory.
    pub ok: bool,
}

/// The state `state` after the text `text` is handed over: it is stored,
/// with a terminator, at the address that the guest has put into the table
/// slot at `slot`.
pub open spec fn hand_text(state: Handed, slot: int, text: Seq<u8>) -> Handed {
    if !state.ok {
        state
    } else if !in_bounds(state.mem.len(), slot, 8) || !in_bounds(
        state.mem.len(),
        u64_at(state.mem, slot) as int,
        text.len() + 1 as int,
    ) {
        Handed { ok: false, ..state }
    } else {
        Handed { mem: store(state.mem, u64_at(state.mem, slot) as int, text.push(0)), ok: true }
    }
}

/// The state after the first `n` of `texts` are handed over through the
/// table at `table`, one slot of eight bytes for each.
pub open spec fn hand_texts(mem: Seq<u8>, table: int, texts: Seq<Seq<u8>>, n: nat) -> Handed
    decreases n,
{
    if n == 0 {
        Handed { mem, ok: true }
    } else {
        hand_text(hand_texts(mem, table, texts, (n - 1) as nat), table + 8 * (n - 1), texts[n - 1])
    }
}

/// The texts of the arguments: the path of the kernel, then the arguments
/// of the application.
pub open spec fn argument_texts(path: Seq<u8>, args: Seq<Vec<u8>>) -> Seq<Seq<u8>> {
    seq![path] + Seq::new(args.len(), |i: int| args[i]@)
}

/// The texts of the variables of the environment that the guest is told.
pub open spec fn env_texts(env: Seq<EnvVar>) -> Seq<Seq<u8>> {
    Seq::new(env_count(env) as nat, |i: int| env_text(env[i]))
}

/// What the hypercall for arguments and environment makes of the memory:
/// first the arguments are handed over through the table at the virtual
/// address `argv`, then the environment through the table at the virtual
/// address `envp`. Each table is looked up in the page tables as they are
/// when its turn comes; a table that is not mapped ends the handing over.
pub open spec fn cmdval_outcome(
    mem: Seq<u8>,
    argv: u64,
    envp: u64,
    path: Seq<u8>,
    args: Seq<Vec<u8>>,
    env: Seq<EnvVar>,
) -> Handed {
    match translate(mem, argv) {
        None => Handed { mem, ok: false },
        Some(table) => {
            let arguments = hand_texts(
                mem,
                table as int,
                argument_texts(path, args),
                argument_texts(path, args).len(),
            );
            if !arguments.ok {
                arguments
            } else {
                match translate(arguments.mem, envp) {
                    None => Handed { mem: arguments.mem, ok: false },
                    Some(table) => hand_texts(
                        arguments.mem,
                        table as int,
                        env_texts(env),
                        env_texts(env).len(),
                    ),
                }
            }
        },
    }
}

/// Hands one text to the guest: stores it, with a terminator, at the
/// address that the table slot at `slot` holds. Returns whether slot and
/// text lie inside the memory; nothing is stored where they do not.
pub fn hand_over(mem: &mut [u8], slot: u64, text: &[u8]) -> (r: bool)
    ensures
        (Handed { mem: final(mem)@, ok: r }) == hand_text(
            Handed { mem: old(mem)@, ok: true },
            slot as int,
            text@,
        ),
{
    let size = mem.len();
    if slot > size as u64 || size as u64 - slot < 8 {
        return false;
    }
    let target = read_u64(mem, slot as usize);
    let len = text.len();
    if target > size as u64 || size as u64 - target <= len as u64 {
        return false;
    }
    let target = target as usize;
    copy_into(mem, target, text);
    mem[target + len] = 0;
    assert(mem@ =~= store(old(mem)@, target as int, text@.push(0)));
    true
}

/// The zero-terminated text at the virtual address `addr`, if the address
/// is mapped and the text ends inside the memory.
pub open spec fn text_at(mem: Seq<u8>, addr: u64) -> Option<Seq<u8>> {
    match translate(mem, addr) {
        Some(start) => c_string_at(mem, start as int),
        None => None,
    }
}

/// What the host is to do next for a write hypercall.
#[derive(Clone, Copy, Debug, PartialEq, Eq, Structural)]
pub enum WriteStep {
    /// Everything is written.
    Done,
    /// Write the `len` bytes of guest memory at the physical address `buf`
    /// to the file descriptor `fd`.
    Write { fd: i32, buf: usize, len: usize },
    /// The bytes to write do not lie in guest memory.
    Fault,
}

/// The stretch of guest memory of `len` bytes at the virtual address `buf`,
/// if it is mapped and lies inside the memory: its physical address.
pub open spec fn buffer_of(mem: Seq<u8>, buf: u64, len: u64) -> Option<usize> {
    match translate(mem, buf) {
        Some(start) => if start + len <= mem.len() {
            Some(start as usize)
        } else {
            None
        },
        None => None,
    }
}

/// What the host is to do for the write hypercall `syswrite` once
/// `bytes_written` of its bytes are written.
pub open spec fn write_step(mem: Seq<u8>, syswrite: SysWrite, bytes_written: u64) -> WriteStep {
    if bytes_written == syswrite.len {
        WriteStep::Done
    } else {
        match buffer_of(mem, syswrite.buf, syswrite.len) {
            Some(start) if bytes_written < syswrite.len => WriteStep::Write {
                fd: syswrite.fd,
                buf: (start + bytes_written) as usize,
                len: (syswrite.len - bytes_written) as usize,
            },
            _ => WriteStep::Fault,
        }
    }
}

/// One processor of a guest, as far as the hypercalls need it.
pub trait VirtualCPU {
    /// The host address of the guest memory.
    spec fn vm_start(&self) -> usize;

    /// The path of the kernel on the host.
    spec fn path(&self) -> Seq<u8>;

    /// The arguments of the application.
    spec fn arguments(&self) -> Seq<Vec<u8>>;

    /// Translates an address from the VM's physical space into the hosts
    /// virtual space.
    fn host_address(&self, addr: usize) -> (r: usize)
        requires
            host_address_of(self.vm_start(), addr) <= usize::MAX,
        ensures
            r == host_address_of(self.vm_start(), addr),
    ;

    /// Looks up the guests pagetable and translates a guest's virtual
    /// address to a guest's physical address.
    fn virt_to_phys(&self, mem: &[u8], addr: u64) -> (r: Option<u64>)
        ensures
            r == translate(mem@, addr),
    ;

    /// Returns the (host) path of the kernel binary.
    fn kernel_path(&self) -> (r: &Vec<u8>)
        ensures
            r@ == self.path(),
    ;

    /// Returns the arguments of the application.
    fn args(&self) -> (r: &Vec<Vec<u8>>)
        ensures
            r@ == self.arguments(),
    ;

    /// Whether the sizes of path, arguments and environment can be told in
    /// the block that the guest has for them.
    fn sizes_fit(&self, env: &Vec<EnvVar>) -> (r: bool)
        ensures
            r == sizes_fit(self.path(), self.arguments(), env@),
    {
        let args = self.args();
        if args.len() >= MAX_ARGC || self.kernel_path().len() >= i32::MAX as usize {
            return false;
        }
        let mut i: usize = 0;
        while i < args.len()
            invariant
                i <= args@.len(),
                args@ == self.arguments(),
                forall|j: int| 0 <= j < i ==> (#[trigger] args@[j])@.len() < i32::MAX,
            decreases args@.len() - i,
        {
            if args[i].len() >= i32::MAX as usize {
                return false;
            }
            i += 1;
        }
        let mut i: usize = 0;
        while i < env.len()
            invariant
                i <= env@.len(),
                forall|j: int|
                    0 <= j < i ==> (#[trigger] env@[j]).0@.len() + env@[j].1@.len() + 2 <= i32::MAX,
            decreases env@.len() - i,
        {
            let var = &env[i];
            if var.0.len() > i32::MAX as usize - 2 || var.1.len() > i32::MAX as usize - 2
                - var.0.len() {
                return false;
            }
            i += 1;
        }
        true
    }

    /// Tells the guest the sizes of its arguments and of its environment.
    fn cmdsize(&self, syssize: &mut SysCmdsize, env: &Vec<EnvVar>)
        requires
            sizes_fit(self.path(), self.arguments(), env@),
        ensures
            is_cmdsize_of(*final(syssize), *old(syssize), self.path(), self.arguments(), env@),
    {
        syssize.argc = 0;
        syssize.envc = 0;
        let path = self.kernel_path();
        syssize.argsz[0] = path.len() as i32 + 1;
        let args = self.args();
        let mut counter: usize = 0;
        while counter < args.len()
            invariant
                counter <= args@.len(),
                args@ == self.arguments(),
                sizes_fit(self.path(), self.arguments(), env@),
                syssize.argsz@[0] == self.path().len() + 1,
                syssize.envsz == old(syssize).envsz,
                forall|i: int|
                    0 <= i < counter ==> syssize.argsz@[i + 1] == (#[trigger] args@[i])@.len() + 1,
                forall|i: int| counter < i < 128 ==> #[trigger] syssize.argsz@[i] == old(syssize).argsz@[i],
            decreases args@.len() - counter,
        {
            syssize.argsz[counter + 1] = args[counter].len() as i32 + 1;
            counter += 1;
        }
        syssize.argc = counter as i32 + 1;
        let mut counter: usize = 0;
        while counter < env.len() && counter < MAX_ENVC
            invariant
                counter <= env@.len(),
                counter <= MAX_ENVC,
                args@ == self.arguments(),
                sizes_fit(self.path(), self.arguments(), env@),
                syssize.argc == args@.len() + 1,
                syssize.argsz@[0] == self.path().len() + 1,
                forall|i: int|
                    0 <= i < args@.len() ==> syssize.argsz@[i + 1] == (#[trigger] args@[i])@.len() + 1,
                forall|i: int|
                    args@.len() < i < 128 ==> #[trigger] syssize.argsz@[i] == old(syssize).argsz@[i],
                forall|i: int|
                    0 <= i < counter ==> syssize.envsz@[i] == (#[trigger] env@[i]).0@.len()
                        + env@[i].1@.len() + 2,
                forall|i: int| counter <= i < 128 ==> #[trigger] syssize.envsz@[i] == old(syssize).envsz@[i],
            decreases env@.len() - counter,
        {
            let var = &env[counter];
            syssize.envsz[counter] = (var.0.len() + var.1.len()) as i32 + 2;
            counter += 1;
        }
        syssize.envc = counter as i32;
    }

    /// Copies the arguments and environment of the application into the
    /// VM's memory. Returns whether all of it had a place there.
    fn cmdval(&self, mem: &mut [u8], syscmdval: &SysCmdval, env: &Vec<EnvVar>) -> (r: bool)
        ensures
            (Handed { mem: final(mem)@, ok: r }) == cmdval_outcome(
                old(mem)@,
                syscmdval.argv,
                syscmdval.envp,
                self.path(),
                self.arguments(),
                env@,
            ),
    {
        let ghost texts = argument_texts(self.path(), self.arguments());
        let table = match self.virt_to_phys(mem, syscmdval.argv) {
            Some(table) => table,
            None => {
                return false;
            },
        };
        let ghost argv = table as int;
        let path = self.kernel_path();
        let args = self.args();
        proof {
            assert(texts.len() == args@.len() + 1);
            assert(texts[0] == self.path());
            lemma_hand_next(old(mem)@, argv, texts, 0);
        }
        if !hand_over(mem, table, path.as_slice()) {
            proof {
                lemma_handing_stops(old(mem)@, argv, texts, 1, texts.len());
            }
            return false;
        }
        let mut counter: usize = 0;
        while counter < args.len()
            invariant
                counter <= args@.len(),
                args@ == self.arguments(),
                texts == argument_texts(self.path(), self.arguments()),
                argv == table,
                translate(old(mem)@, syscmdval.argv) == Some(table),
                hand_texts(old(mem)@, argv, texts, (counter + 1) as nat) == (Handed {
                    mem: mem@,
                    ok: true,
                }),
            decreases args@.len() - counter,
        {
            proof {
                assert(texts[counter + 1] == args@[counter as int]@);
                lemma_hand_next(old(mem)@, argv, texts, (counter + 1) as nat);
                lemma_addressable(mem);
            }
            let slot = slot_address(table, counter + 1);
            if slot.is_none() || !hand_over(mem, slot.unwrap(), args[counter].as_slice()) {
                proof {
                    lemma_handing_stops(old(mem)@, argv, texts, counter + 2, texts.len());
                }
                return false;
            }
            counter += 1;
        }
        let ghost handed = mem@;
        let ghost vars = env_texts(env@);
        let variables = match self.virt_to_phys(mem, syscmdval.envp) {
            Some(variables) => variables,
            None => {
                return false;
            },
        };
        let ghost envp = variables as int;
        let mut counter: usize = 0;
        while counter < env.len() && counter < MAX_ENVC
            invariant
                counter <= env@.len(),
                counter <= MAX_ENVC,
                vars == env_texts(env@),
                texts == argument_texts(self.path(), self.arguments()),
                argv == table,
                envp == variables,
                translate(old(mem)@, syscmdval.argv) == Some(table),
                translate(handed, syscmdval.envp) == Some(variables),
                hand_texts(old(mem)@, argv, texts, texts.len()) == (Handed { mem: handed, ok: true }),
                hand_texts(handed, envp, vars, counter as nat) == (Handed { mem: mem@, ok: true }),
            decreases env@.len() - counter,
        {
            let text = env_entry(&env[counter]);
            proof {
                assert(vars[counter as int] == text@);
                lemma_hand_next(handed, envp, vars, counter as nat);
                lemma_addressable(mem);
            }
            let slot = slot_address(variables, counter);
            if slot.is_none() || !hand_over(mem, slot.unwrap(), text.as_slice()) {
                proof {
                    lemma_handing_stops(handed, envp, vars, counter + 1, vars.len());
                }
                return false;
            }
            counter += 1;
        }
        true
    }

    /// Reads the zero-terminated text at the virtual address `addr`: the
    /// path that the guest names in a hypercall.
    fn text(&self, mem: &[u8], addr: u64) -> (r: Option<Vec<u8>>)
        ensures
            match r {
                Some(text) => text_at(mem@, addr) == Some(text@),
                None => text_at(mem@, addr) is None,
            },
    {
        proof {
            lemma_addressable(mem);
        }
        match self.virt_to_phys(mem, addr) {
            Some(start) => if start <= mem.len() as u64 {
                read_c_string(mem, start as usize)
            } else {
                None
            },
            None => None,
        }
    }

    /// Notes what the host has answered to the removal of the file that the
    /// guest has named.
    fn unlink(&self, sysunlink: &mut SysUnlink, ret: i32)
        ensures
            *final(sysunlink) == (SysUnlink { ret, ..*old(sysunlink) }),
    {
        sysunlink.ret = ret;
    }

    /// Reads the exit code from an VM and returns it.
    fn exit(&self, sysexit: &SysExit) -> (r: i32)
        ensures
            r == sysexit.arg,
    {
        sysexit.arg
    }

    /// Notes what the host has answered to the opening of the file that the
    /// guest has named.
    fn open(&self, sysopen: &mut SysOpen, ret: i32)
        ensures
            *final(sysopen) == (SysOpen { ret, ..*old(sysopen) }),
    {
        sysopen.ret = ret;
    }

    /// Notes what the host has answered to the closing of a file.
    fn close(&self, sysclose: &mut SysClose, ret: i32)
        ensures
            *final(sysclose) == (SysClose { ret, ..*old(sysclose) }),
    {
        sysclose.ret = ret;
    }

    /// The stretch of guest memory that a read hypercall reads into: its
    /// physical address, if the buffer is mapped and lies inside the memory.
    fn read_buffer(&self, mem: &[u8], sysread: &SysRead) -> (r: Option<usize>)
        ensures
            r == buffer_of(mem@, sysread.buf, sysread.len),
    {
        let size = mem.len();
        match self.virt_to_phys(mem, sysread.buf) {
            Some(start) => if start <= size as u64 && sysread.len <= size as u64 - start {
                Some(start as usize)
            } else {
                None
            },
            None => None,
        }
    }

    /// Notes what the host has answered to a read: the number of the bytes
    /// that were read, or -1 where the host has failed.
    fn read(&self, sysread: &mut SysRead, bytes_read: i64)
        ensures
            *final(sysread) == (SysRead {
                ret: if bytes_read >= 0 {
                    bytes_read
                } else {
                    -1i64
                },
                ..*old(sysread)
            }),
    {
        if bytes_read >= 0 {
            sysread.ret = bytes_read;
        } else {
            sysread.ret = -1;
        }
    }

    /// Says what the host is to do for a write hypercall of which
    /// `bytes_written` bytes are written already: the host writes until
    /// nothing is left.
    fn write(&self, mem: &[u8], syswrite: &SysWrite, bytes_written: u64) -> (r: WriteStep)
        ensures
            r == write_step(mem@, *syswrite, bytes_written),
            r matches WriteStep::Write { fd, buf, len } ==> buf + len <= mem@.len() && len > 0,
    {
        if bytes_written == syswrite.len {
            return WriteStep::Done;
        }
        if bytes_written > syswrite.len {
            return WriteStep::Fault;
        }
        let size = mem.len();
        match self.virt_to_phys(mem, syswrite.buf) {
            Some(start) => if start <= size as u64 && syswrite.len <= size as u64 - start {
                WriteStep::Write {
                    fd: syswrite.fd,
                    buf: (start + bytes_written) as usize,
                    len: (syswrite.len - bytes_written) as usize,
                }
            } else {
                WriteStep::Fault
            },
            None => WriteStep::Fault,
        }
    }

    /// Notes the position that the host has answered to a seek.
    fn lseek(&self, syslseek: &mut SysLseek, offset: i64)
        ensures
            *final(syslseek) == (SysLseek { offset, ..*old(syslseek) }),
    {
        syslseek.offset = offset;
    }
}

/// The address of the slot `index` of the table at `table`.
fn slot_address(table: u64, index: usize) -> (r: Option<u64>)
    ensures
        r is Some <==> table + 8 * index <= u64::MAX,
        r matches Some(slot) ==> slot == table + 8 * index,
{
    match (index as u64).checked_mul(8) {
        Some(offset) => table.checked_add(offset),
        None => None,
    }
}

/// The text by which the guest is told a variable of the environment.
fn env_entry(var: &EnvVar) -> (r: Vec<u8>)
    ensures
        r@ == env_text(*var),
{
    let mut r: Vec<u8> = Vec::new();
    let mut i: usize = 0;
    while i < var.0.len()
        invariant
            i <= var.0@.len(),
            r@ == var.0@.subrange(0, i as int),
        decreases var.0@.len() - i,
    {
        r.push(var.0[i]);
        i += 1;
        assert(r@ =~= var.0@.subrange(0, i as int));
    }
    assert(var.0@.subrange(0, i as int) =~= var.0@);
    r.push(61);
    let mut i: usize = 0;
    while i < var.1.len()
        invariant
            i <= var.1@.len(),
            r@ == var.0@ + seq![61u8] + var.1@.subrange(0, i as int),
        decreases var.1@.len() - i,
    {
        r.push(var.1[i]);
        i += 1;
        assert(r@ =~= var.0@ + seq![61u8] + var.1@.subrange(0, i as int));
    }
    assert(var.1@.subrange(0, i as int) =~= var.1@);
    r
}

/// The state after one more text is the state before it, with that text
/// handed over through its slot of the table.
pub proof fn lemma_hand_next(mem: Seq<u8>, table: int, texts: Seq<Seq<u8>>, n: nat)
    requires
        n < texts.len(),
    ensures
        hand_texts(mem, table, texts, n + 1) == hand_text(
            hand_texts(mem, table, texts, n),
            table + 8 * n,
            texts[n as int],
        ),
        n == 0 ==> hand_texts(mem, table, texts, n) == (Handed { mem, ok: true }),
{
    assert(hand_texts(mem, table, texts, (n + 1) as nat) == hand_text(
        hand_texts(mem, table, texts, ((n + 1) - 1) as nat),
        table + 8 * ((n + 1) - 1),
        texts[(n + 1) - 1],
    ));
}

/// Once a text has found no place, no further text is handed over.
pub proof fn lemma_handing_stops(mem: Seq<u8>, table: int, texts: Seq<Seq<u8>>, k: int, n: nat)
    requires
        0 <= k <= n <= texts.len(),
        !hand_texts(mem, table, texts, k as nat).ok,
    ensures
        hand_texts(mem, table, texts, n) == hand_texts(mem, table, texts, k as nat),
    decreases n,
{
    if n > k {
        lemma_handing_stops(mem, table, texts, k, (n - 1) as nat);
    }
}

} // verus!
