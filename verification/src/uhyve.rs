//! The virtual machine: its memory, the steps that set it up on the host,
//! and what the loader keeps of it.

use vstd::prelude::*;
use crate::consts::{KVM_32BIT_GAP_START, KVM_32BIT_MAX_MEM_SIZE, SHAREDQUEUE_START, UHYVE_IRQ_NET};
use crate::paging::{has_boot_tables, init_guest_mem, is_boot_table_byte};
use crate::params::{Ipv4Address, Params};
use crate::shared_queue::SHARED_QUEUE_SIZE;
use crate::vcpu::UhyveCPU;
use crate::vm::{Vm, VmState};

verus! {

/// A hint on how the host is to treat the guest memory.
#[derive(Clone, Copy, Debug, PartialEq, Eq, Structural)]
pub enum MemoryAdvice {
    /// Merge pages of equal content.
    Mergeable,
    /// Back the memory with transparent huge pages.
    HugePage,
}

/// One slot of guest memory, as it is registered with the host.
#[derive(Clone, Copy, Debug, PartialEq, Eq, Structural)]
pub struct MemorySlot {
    /// Number of the slot.
    pub slot: u32,
    /// Flags of the slot.
    pub flags: u32,
    /// Guest physical address of its first byte.
    pub guest_phys_addr: u64,
    /// Size of the slot in bytes.
    pub memory_size: u64,
    /// Host address of its first byte.
    pub userspace_addr: u64,
}

/// The mapping that serves as guest memory: anonymous, private, readable and
/// writable, and not reserved in advance.
#[derive(Clone, Copy, Debug)]
pub struct MmapMemory {
    flags: u32,
    memory_size: usize,
    guest_address: usize,
    host_address: usize,
}

/// The first slot of a guest memory of `size` bytes at the guest address
/// `guest` and the host address `host`: all of it that lies below the hole
/// for memory-mapped devices.
pub open spec fn low_slot(flags: u32, size: usize, guest: usize, host: usize) -> MemorySlot {
    MemorySlot {
        slot: 0,
        flags,
        guest_phys_addr: guest as u64,
        memory_size: if size <= KVM_32BIT_GAP_START {
            size as u64
        } else {
            KVM_32BIT_GAP_START
        },
        userspace_addr: host as u64,
    }
}

/// The second slot of such a memory, if it reaches beyond the hole: what lies
/// above 4 GiB, at that distance from the start on the host as in the guest.
pub open spec fn high_slot(flags: u32, size: usize, guest: usize, host: usize) -> Option<
    MemorySlot,
> {
    if size > KVM_32BIT_MAX_MEM_SIZE {
        Some(
            MemorySlot {
                slot: 1,
                flags,
                guest_phys_addr: (guest + KVM_32BIT_MAX_MEM_SIZE) as u64,
                memory_size: (size - KVM_32BIT_MAX_MEM_SIZE) as u64,
                userspace_addr: (host + KVM_32BIT_MAX_MEM_SIZE) as u64,
            },
        )
    } else {
        None
    }
}

/// The hints that the configuration asks for, in the order in which they are
/// given.
pub open spec fn advice_for(huge_pages: bool, mergeable: bool) -> Seq<MemoryAdvice> {
    (if mergeable {
        seq![MemoryAdvice::Mergeable]
    } else {
        seq![]
    }) + (if huge_pages {
        seq![MemoryAdvice::HugePage]
    } else {
        seq![]
    })
}

impl MmapMemory {
    /// Flags of the memory slots.
    pub closed spec fn flags_spec(&self) -> u32 {
        self.flags
    }

    /// Size of the mapping in bytes.
    pub closed spec fn size(&self) -> usize {
        self.memory_size
    }

    /// Guest physical address of its first byte.
    pub closed spec fn guest(&self) -> usize {
        self.guest_address
    }

    /// Host address of its first byte.
    pub closed spec fn host(&self) -> usize {
        self.host_address
    }

    /// Every mapping lies inside the address spaces of host and guest.
    #[verifier::type_invariant]
    spec fn lies_in_address_space(self) -> bool {
        &&& self.host_address + self.memory_size <= usize::MAX
        &&& self.guest_address + self.memory_size <= usize::MAX
    }

    /// Describes a mapping of `memory_size` bytes that the host has made at
    /// `host_address` for the guest physical address `guest_address`.
    pub fn new(flags: u32, memory_size: usize, guest_address: u64, host_address: usize) -> (r:
        MmapMemory)
        requires
            host_address + memory_size <= usize::MAX,
            guest_address + memory_size <= usize::MAX,
        ensures
            r.flags_spec() == flags,
            r.size() == memory_size,
            r.guest() == guest_address,
            r.host() == host_address,
    {
        MmapMemory { flags, memory_size, guest_address: guest_address as usize, host_address }
    }

    /// The hints to give to the host for a guest memory.
    pub fn advice(huge_pages: bool, mergeable: bool) -> (r: Vec<MemoryAdvice>)
        ensures
            r@ == advice_for(huge_pages, mergeable),
    {
        let mut r: Vec<MemoryAdvice> = Vec::new();
        if mergeable {
            r.push(MemoryAdvice::Mergeable);
        }
        if huge_pages {
            r.push(MemoryAdvice::HugePage);
        }
        assert(r@ =~= advice_for(huge_pages, mergeable));
        r
    }

    /// Size of the mapping in bytes.
    pub fn memory_size(&self) -> (r: usize)
        ensures
            r == self.size(),
            self.host() + r <= usize::MAX,
            self.guest() + r <= usize::MAX,
    {
        proof {
            use_type_invariant(self);
        }
        self.memory_size
    }

    /// Host address of the first byte.
    pub fn host_address(&self) -> (r: usize)
        ensures
            r == self.host(),
    {
        self.host_address
    }

    /// Guest physical address of the first byte.
    pub fn guest_address(&self) -> (r: usize)
        ensures
            r == self.guest(),
    {
        self.guest_address
    }

    /// The slots by which the mapping is registered with the host. The
    /// range from 3.25 GiB to 4 GiB of the guest's address space is left to
    /// memory-mapped devices: no slot covers it.
    pub fn slots(&self) -> (r: (MemorySlot, Option<MemorySlot>))
        ensures
            r.0 == low_slot(self.flags_spec(), self.size(), self.guest(), self.host()),
            r.1 == high_slot(self.flags_spec(), self.size(), self.guest(), self.host()),
    {
        proof {
            use_type_invariant(self);
        }
        let size = self.memory_size as u64;
        let low = MemorySlot {
            slot: 0,
            flags: self.flags,
            guest_phys_addr: self.guest_address as u64,
            memory_size: if size <= KVM_32BIT_GAP_START {
                size
            } else {
                KVM_32BIT_GAP_START
            },
            userspace_addr: self.host_address as u64,
        };
        let high = if size > KVM_32BIT_MAX_MEM_SIZE {
            Some(
                MemorySlot {
                    slot: 1,
                    flags: self.flags,
                    guest_phys_addr: self.guest_address as u64 + KVM_32BIT_MAX_MEM_SIZE,
                    memory_size: size - KVM_32BIT_MAX_MEM_SIZE,
                    userspace_addr: self.host_address as u64 + KVM_32BIT_MAX_MEM_SIZE,
                },
            )
        } else {
            None
        };
        (low, high)
    }
}

/// A capability of the host's virtualization interface.
#[derive(Clone, Copy, Debug, PartialEq, Eq, Structural)]
pub enum Capability {
    /// The interface of the x2APIC, with 32-bit identifiers and without the
    /// broadcast quirk where the fields say so.
    X2ApicApi { use_32bit_ids: bool, disable_broadcast_quirk: bool },
    /// A timer that fires at a deadline of the time stamp counter.
    TscDeadlineTimer,
    /// Interrupts that are raised through an event file descriptor.
    IrqFd,
    /// No exits to the host on the instructions that the fields name.
    DisableExits { pause: bool, mwait: bool, hlt: bool },
}

/// One step of setting a virtual machine up on the host.
#[derive(Clone, Copy, Debug, PartialEq, Eq, Structural)]
pub enum SetupStep {
    /// Register a slot of guest memory.
    SetUserMemoryRegion(MemorySlot),
    /// Create the interrupt controller.
    CreateIrqChip,
    /// Enable a capability.
    EnableCap(Capability),
    /// Register an event file descriptor as the interrupt line `gsi`.
    RegisterIrqFd { gsi: u32 },
}

/// Why setting a virtual machine up is given up.
#[derive(Clone, Copy, Debug, PartialEq, Eq, Structural)]
pub enum SetupError {
    /// The host has refused the step.
    Hypervisor(SetupStep),
    /// The host lacks a capability that the guest needs, or has one that it
    /// cannot live with.
    HostIfaceUnavailable(Capability),
}

/// The capability with which the x2APIC is asked for.
pub open spec fn x2apic() -> Capability {
    Capability::X2ApicApi { use_32bit_ids: true, disable_broadcast_quirk: true }
}

/// The capability with which exits are switched off.
pub open spec fn quiet_exits() -> Capability {
    Capability::DisableExits { pause: true, mwait: true, hlt: true }
}

/// The steps that set a machine with the given memory slots up, in their
/// order: the slots, the interrupt controller, the capabilities, and the
/// interrupt line of the network.
pub open spec fn setup_steps(low: MemorySlot, high: Option<MemorySlot>) -> Seq<SetupStep> {
    seq![SetupStep::SetUserMemoryRegion(low)] + (match high {
        Some(high) => seq![SetupStep::SetUserMemoryRegion(high)],
        None => seq![],
    }) + seq![
        SetupStep::CreateIrqChip,
        SetupStep::EnableCap(x2apic()),
        SetupStep::EnableCap(Capability::TscDeadlineTimer),
        SetupStep::EnableCap(Capability::IrqFd),
        SetupStep::EnableCap(quiet_exits()),
        SetupStep::RegisterIrqFd { gsi: UHYVE_IRQ_NET },
    ]
}

/// What follows from the host's answer to a step. The guest relies on a
/// timer of its own kind, so the deadline timer must not be there to enable;
/// every other step has to succeed.
pub open spec fn step_outcome(step: SetupStep, succeeded: bool) -> Option<SetupError> {
    match step {
        SetupStep::EnableCap(Capability::TscDeadlineTimer) => if succeeded {
            Some(SetupError::HostIfaceUnavailable(Capability::TscDeadlineTimer))
        } else {
            None
        },
        SetupStep::EnableCap(capability) => if succeeded {
            None
        } else {
            Some(SetupError::HostIfaceUnavailable(capability))
        },
        _ => if succeeded {
            None
        } else {
            Some(SetupError::Hypervisor(step))
        },
    }
}

impl SetupStep {
    /// Judges the host's answer to the step.
    pub fn check(&self, succeeded: bool) -> (r: Result<(), SetupError>)
        ensures
            r is Ok <==> step_outcome(*self, succeeded) is None,
            r matches Err(e) ==> step_outcome(*self, succeeded) == Some(e),
    {
        match self {
            SetupStep::EnableCap(Capability::TscDeadlineTimer) => if succeeded {
                Err(SetupError::HostIfaceUnavailable(Capability::TscDeadlineTimer))
            } else {
                Ok(())
            },
            SetupStep::EnableCap(capability) => if succeeded {
                Ok(())
            } else {
                Err(SetupError::HostIfaceUnavailable(*capability))
            },
            _ => if succeeded {
                Ok(())
            } else {
                Err(SetupError::Hypervisor(*self))
            },
        }
    }
}

/// The pair of workers that moves frames between the guest's queues and a
/// network interface of the host.
#[derive(Clone, Debug)]
pub struct UhyveNetwork {
    /// Name of the interface.
    pub name: String,
    /// Guest physical address of the queue that the host fills.
    pub rx_queue: usize,
    /// Guest physical address of the queue that the host drains.
    pub tx_queue: usize,
}

/// The distance of the second queue from the first: the size of a queue,
/// rounded up to a multiple of 64.
pub open spec fn queue_stride() -> int {
    (SHARED_QUEUE_SIZE + 63) / 64 * 64
}

impl UhyveNetwork {
    /// The workers for the interface `name` and the pair of queues at
    /// `start`: first the queue of what the guest receives, then, at the next
    /// multiple of 64 bytes, the queue of what it sends.
    pub fn new(name: String, start: usize) -> (r: UhyveNetwork)
        requires
            start + 2 * queue_stride() <= usize::MAX,
        ensures
            r.name == name,
            r.rx_queue == start,
            r.tx_queue == start + queue_stride(),
    {
        UhyveNetwork { name, rx_queue: start, tx_queue: start + (SHARED_QUEUE_SIZE + 63) / 64 * 64 }
    }
}

/// The virtual machine.
#[derive(Debug)]
pub struct Uhyve {
    offset: u64,
    entry_point: u64,
    mem: MmapMemory,
    num_cpus: u32,
    path: Vec<u8>,
    boot_info: Option<usize>,
    verbose: bool,
    ip: Option<Ipv4Address>,
    gateway: Option<Ipv4Address>,
    mask: Option<Ipv4Address>,
    uhyve_device: Option<UhyveNetwork>,
    gdb_port: Option<u16>,
}

impl Uhyve {
    /// The workers of the network, where an interface is configured.
    pub closed spec fn network(&self) -> Option<UhyveNetwork> {
        self.uhyve_device
    }

    /// The port of the debugger's server.
    pub closed spec fn debug_port(&self) -> Option<u16> {
        self.gdb_port
    }

    /// Whether a machine can be made of the configuration: a debugger
    /// serves one processor only.
    pub fn accepts(params: &Params) -> (r: bool)
        ensures
            r == (params.gdb_port is None || params.cpu_count@ == 1),
    {
        params.gdb_port.is_none() || params.cpu_count.get() == 1
    }

    /// The steps that set a machine with the guest memory `mem` up on the
    /// host.
    pub fn setup(mem: &MmapMemory) -> (r: Vec<SetupStep>)
        ensures
            r@ == setup_steps(
                low_slot(mem.flags_spec(), mem.size(), mem.guest(), mem.host()),
                high_slot(mem.flags_spec(), mem.size(), mem.guest(), mem.host()),
            ),
    {
        let (low, high) = mem.slots();
        let mut r: Vec<SetupStep> = Vec::new();
        r.push(SetupStep::SetUserMemoryRegion(low));
        if let Some(high) = high {
            r.push(SetupStep::SetUserMemoryRegion(high));
        }
        r.push(SetupStep::CreateIrqChip);
        r.push(
            SetupStep::EnableCap(
                Capability::X2ApicApi { use_32bit_ids: true, disable_broadcast_quirk: true },
            ),
        );
        r.push(SetupStep::EnableCap(Capability::TscDeadlineTimer));
        r.push(SetupStep::EnableCap(Capability::IrqFd));
        r.push(
            SetupStep::EnableCap(Capability::DisableExits { pause: true, mwait: true, hlt: true }),
        );
        r.push(SetupStep::RegisterIrqFd { gsi: UHYVE_IRQ_NET });
        assert(r@ =~= setup_steps(low, high));
        r
    }

    /// The machine for the kernel at `kernel_path`, configured by `params`,
    /// with the guest memory `guest` that `mem` describes. The initial
    /// tables are written into the memory; no kernel is loaded yet. A
    /// debugger can serve one processor only.
    pub fn new(kernel_path: Vec<u8>, params: Params, mem: MmapMemory, guest: &mut [u8]) -> (r: Uhyve)
        requires
            params.gdb_port is None || params.cpu_count@ == 1,
            mem.size() == params.memory_size@,
            old(guest)@.len() == mem.size(),
        ensures
            r.state() == (VmState {
                num_cpus: params.cpu_count@,
                host_address: mem.host(),
                memory_size: mem.size(),
                offset: 0,
                entry_point: 0,
                kernel_path: kernel_path@,
                boot_info: None,
                ip: params.ip,
                gateway: params.gateway,
                mask: params.mask,
                verbose: params.verbose,
            }),
            r.state().has_memory(),
            r.debug_port() == params.gdb_port,
            match params.nic {
                Some(name) => r.network() == Some(
                    UhyveNetwork {
                        name,
                        rx_queue: SHAREDQUEUE_START,
                        tx_queue: (SHAREDQUEUE_START + queue_stride()) as usize,
                    },
                ),
                None => r.network() is None,
            },
            final(guest)@.len() == old(guest)@.len(),
            has_boot_tables(final(guest)@),
            forall|i: int|
                0 <= i < old(guest)@.len() && !is_boot_table_byte(i) ==> final(guest)@[i] == old(
                    guest,
                )@[i],
    {
        let memory_size = mem.memory_size();
        let cpu_count = params.cpu_count.get();
        let minimum = params.memory_size.get();
        let uhyve_device = match params.nic {
            Some(nic) => Some(UhyveNetwork::new(nic, SHAREDQUEUE_START)),
            None => None,
        };
        let hyve = Uhyve {
            offset: 0,
            entry_point: 0,
            mem,
            num_cpus: cpu_count,
            path: kernel_path,
            boot_info: None,
            verbose: params.verbose,
            ip: params.ip,
            gateway: params.gateway,
            mask: params.mask,
            uhyve_device,
            gdb_port: params.gdb_port,
        };
        hyve.init_guest_mem(guest);
        hyve
    }

    /// The workers of the network, where an interface is configured.
    pub fn uhyve_device(&self) -> (r: &Option<UhyveNetwork>)
        ensures
            *r == self.network(),
    {
        &self.uhyve_device
    }

    /// The port of the debugger's server.
    pub fn gdb_port(&self) -> (r: Option<u16>)
        ensures
            r == self.debug_port(),
    {
        self.gdb_port
    }
}

impl Vm for Uhyve {
    closed spec fn state(&self) -> VmState {
        VmState {
            num_cpus: self.num_cpus,
            host_address: self.mem.host_address,
            memory_size: self.mem.memory_size,
            offset: self.offset,
            entry_point: self.entry_point,
            kernel_path: self.path@,
            boot_info: self.boot_info,
            ip: self.ip,
            gateway: self.gateway,
            mask: self.mask,
            verbose: self.verbose,
        }
    }

    fn verbose(&self) -> (r: bool) {
        self.verbose
    }

    fn set_offset(&mut self, offset: u64) {
        self.offset = offset;
    }

    fn get_offset(&self) -> (r: u64) {
        self.offset
    }

    fn set_entry_point(&mut self, entry: u64) {
        self.entry_point = entry;
    }

    fn get_entry_point(&self) -> (r: u64) {
        self.entry_point
    }

    fn get_ip(&self) -> (r: Option<Ipv4Address>) {
        self.ip
    }

    fn get_gateway(&self) -> (r: Option<Ipv4Address>) {
        self.gateway
    }

    fn get_mask(&self) -> (r: Option<Ipv4Address>) {
        self.mask
    }

    fn num_cpus(&self) -> (r: u32) {
        self.num_cpus
    }

    fn guest_mem(&self) -> (r: (usize, usize)) {
        (self.mem.host_address, self.mem.memory_size)
    }

    fn kernel_path(&self) -> (r: &Vec<u8>) {
        &self.path
    }

    fn create_cpu(&self, id: u32) -> (r: UhyveCPU) {
        UhyveCPU::new(id, self.path.clone(), Vec::new(), self.mem.host_address)
    }

    fn set_boot_info(&mut self, header: usize) {
        self.boot_info = Some(header);
    }

    fn boot_info(&self) -> (r: Option<usize>) {
        self.boot_info
    }

    /// Initialize the page tables for the guest.
    fn init_guest_mem(&self, mem: &mut [u8]) {
        init_guest_mem(mem);
    }
}

} // verus!
