//! The boot information that the loader hands to the guest.

use vstd::prelude::*;
use crate::consts::{KERNEL_STACK_SIZE, UHYVE_UART_PORT};
use crate::params::{address_of, octets_of, Ipv4Address};

verus! {

/// Kind of the note that states the version of the entry protocol. The
/// note's name is `HERMIT`.
pub const NT_HERMIT_ENTRY_VERSION: u32 = 0x5a00;

/// The version of the entry protocol that this loader speaks.
pub const HERMIT_ENTRY_VERSION: u8 = 1;

/// Feature bits by which the guest learns that it runs under this hypervisor
/// and that a PCI bus is there.
pub const UHYVE_FEATURES: u8 = 0b11;

/// The template of thread-local storage.
#[derive(Clone, Copy, Debug, PartialEq, Eq, Structural)]
pub struct TlsInfo {
    /// Address of the template in guest memory.
    pub start: u64,
    /// Number of the bytes that the file holds of it.
    pub filesz: u64,
    /// Number of the bytes that it takes in memory.
    pub memsz: u64,
    /// Alignment of the thread-local storage.
    pub align: u64,
}

/// The network configuration of the guest, each address by its octets.
#[derive(Clone, Copy, Debug, PartialEq, Eq)]
pub struct NetInfo {
    /// Address of the guest.
    pub ip: [u8; 4],
    /// Address of the gateway.
    pub gateway: [u8; 4],
    /// Network mask.
    pub mask: [u8; 4],
}

/// What the loader decides of the boot information. The fields that are not
/// here keep the values that the entry protocol gives them by default.
#[derive(Clone, Copy, Debug, PartialEq, Eq)]
pub struct BootInfo {
    /// Load base of the image.
    pub base: u64,
    /// Size of the guest memory.
    pub limit: u64,
    /// Size of the image.
    pub image_size: u64,
    /// The template of thread-local storage.
    pub tls_info: TlsInfo,
    /// Top of the boot stack.
    pub current_stack_address: u64,
    /// Host address of the guest memory.
    pub host_logical_addr: u64,
    /// Boot time, in microseconds since the epoch.
    pub boot_gtod: u64,
    /// Processor frequency in MHz; zero where it is not known.
    pub cpu_freq: u32,
    /// Number of the processors that may come up.
    pub possible_cpus: u32,
    /// I/O port of the serial console; zero where the guest is to stay quiet.
    pub uartport: u16,
    /// Feature bits of the hypervisor.
    pub uhyve: u8,
    /// The network configuration.
    pub net_info: NetInfo,
}

/// The version note's kind, `hermit_entry::NT_HERMIT_ENTRY_VERSION`.
#[verifier::external_body]
pub(crate) fn entry_version_note_type() -> (r: u32)
    ensures
        r == NT_HERMIT_ENTRY_VERSION,
{
    hermit_entry::NT_HERMIT_ENTRY_VERSION
}

/// `hermit_entry::NetInfo::default()`: the addresses of a guest that was
/// given none, 255.255.255.255 for itself and its gateway and the mask
/// 255.255.255.0.
#[verifier::external_body]
pub(crate) fn default_net_info() -> (r: NetInfo)
    ensures
        r.ip@ == seq![255u8, 255u8, 255u8, 255u8],
        r.gateway@ == seq![255u8, 255u8, 255u8, 255u8],
        r.mask@ == seq![255u8, 255u8, 255u8, 0u8],
{
    let info = hermit_entry::NetInfo::default();
    NetInfo { ip: info.ip, gateway: info.gateway, mask: info.mask }
}

/// `hermit_entry::TlsInfo::default()`: no template.
#[verifier::external_body]
pub(crate) fn default_tls_info() -> (r: TlsInfo)
    ensures
        r == (TlsInfo { start: 0, filesz: 0, memsz: 0, align: 0 }),
{
    let info = hermit_entry::TlsInfo::default();
    TlsInfo { start: info.start, filesz: info.filesz, memsz: info.memsz, align: info.align }
}

/// The octets that the guest is told for an address of the configuration.
pub open spec fn octets_or(address: Option<Ipv4Address>, default: Seq<u8>) -> Seq<u8> {
    match address {
        Some(address) => octets_of(address.bits),
        None => default,
    }
}

impl TlsInfo {
    /// No template.
    pub open spec fn none() -> TlsInfo {
        TlsInfo { start: 0, filesz: 0, memsz: 0, align: 0 }
    }
}

impl NetInfo {
    /// The configuration that tells the guest the addresses that are given,
    /// and the defaults for the others.
    pub fn new(
        ip: Option<Ipv4Address>,
        gateway: Option<Ipv4Address>,
        mask: Option<Ipv4Address>,
    ) -> (r: NetInfo)
        ensures
            r.ip@ == octets_or(ip, seq![255u8, 255u8, 255u8, 255u8]),
            r.gateway@ == octets_or(gateway, seq![255u8, 255u8, 255u8, 255u8]),
            r.mask@ == octets_or(mask, seq![255u8, 255u8, 255u8, 0u8]),
    {
        let mut info = default_net_info();
        if let Some(ip) = ip {
            info.ip = ip.octets();
        }
        if let Some(gateway) = gateway {
            info.gateway = gateway.octets();
        }
        if let Some(mask) = mask {
            info.mask = mask.octets();
        }
        info
    }

    /// The address of the guest.
    pub fn ip(&self) -> (r: Ipv4Address)
        ensures
            r.bits == address_of(self.ip@),
            octets_of(r.bits) == self.ip@,
    {
        Ipv4Address::from_octets(self.ip)
    }

    /// The address of the gateway.
    pub fn gateway(&self) -> (r: Ipv4Address)
        ensures
            r.bits == address_of(self.gateway@),
            octets_of(r.bits) == self.gateway@,
    {
        Ipv4Address::from_octets(self.gateway)
    }

    /// The network mask.
    pub fn mask(&self) -> (r: Ipv4Address)
        ensures
            r.bits == address_of(self.mask@),
            octets_of(r.bits) == self.mask@,
    {
        Ipv4Address::from_octets(self.mask)
    }
}

/// The console port that a guest is told.
pub open spec fn uart_port(verbose: bool) -> u16 {
    if verbose {
        UHYVE_UART_PORT
    } else {
        0
    }
}

impl BootInfo {
    /// The boot information of an image loaded at `base` into a guest memory
    /// of `limit` bytes that the host sees at `host_logical_addr`.
    pub fn new(
        base: u64,
        limit: u64,
        image_size: u64,
        tls_info: TlsInfo,
        host_logical_addr: u64,
        boot_gtod: u64,
        cpu_freq: u32,
        verbose: bool,
        net_info: NetInfo,
    ) -> (r: BootInfo)
        requires
            base >= KERNEL_STACK_SIZE,
        ensures
            r.base == base,
            r.limit == limit,
            r.image_size == image_size,
            r.tls_info == tls_info,
            r.current_stack_address == base - KERNEL_STACK_SIZE,
            r.host_logical_addr == host_logical_addr,
            r.boot_gtod == boot_gtod,
            r.cpu_freq == cpu_freq,
            r.possible_cpus == 1,
            r.uartport == uart_port(verbose),
            r.uartport != 0 <==> verbose,
            r.uhyve == UHYVE_FEATURES,
            r.net_info == net_info,
    {
        BootInfo {
            base,
            limit,
            image_size,
            tls_info,
            current_stack_address: base - KERNEL_STACK_SIZE,
            host_logical_addr,
            boot_gtod,
            cpu_freq,
            possible_cpus: 1,
            uartport: if verbose {
                UHYVE_UART_PORT
            } else {
                0
            },
            uhyve: UHYVE_FEATURES,
            net_info,
        }
    }
}

/// An address that the guest is told by its octets is read back from them
/// unchanged: the address that has the octets of `address` is `address`.
pub proof fn lemma_net_info_round_trip(address: Ipv4Address, default: Seq<u8>)
    ensures
        address_of(octets_or(Some(address), default)) == address.bits,
{
    crate::params::lemma_address_round_trip(address.bits);
}

} // verus!
