//! The configuration of a virtual machine.

use vstd::prelude::*;
use vstd::string::StringExecFns;
use crate::consts::{DEFAULT_MEMORY_SIZE, MINIMUM_MEMORY_SIZE};

verus! {

/// An IPv4 address, its first octet in the most significant byte.
#[derive(Clone, Copy, Debug, PartialEq, Eq, Structural)]
pub struct Ipv4Address {
    /// The four octets as one number.
    pub bits: u32,
}

/// The address whose octets are `octets`, the first one most significant.
pub open spec fn address_of(octets: Seq<u8>) -> u32 {
    ((octets[0] as u32) << 24) | ((octets[1] as u32) << 16) | ((octets[2] as u32) << 8) | (
    octets[3] as u32)
}

/// The four octets of the address `bits`, the most significant first.
pub open spec fn octets_of(bits: u32) -> Seq<u8> {
    seq![(bits >> 24) as u8, ((bits >> 16) & 0xff) as u8, ((bits >> 8) & 0xff) as u8, (bits & 0xff) as u8]
}

impl Ipv4Address {
    /// The address `a.b.c.d`.
    pub fn new(a: u8, b: u8, c: u8, d: u8) -> (r: Ipv4Address)
        ensures
            r.bits == address_of(seq![a, b, c, d]),
            octets_of(r.bits) == seq![a, b, c, d],
    {
        let r = Ipv4Address::from_octets([a, b, c, d]);
        assert(seq![a, b, c, d] =~= [a, b, c, d]@);
        r
    }

    /// The address with the octets `octets`.
    pub fn from_octets(octets: [u8; 4]) -> (r: Ipv4Address)
        ensures
            r.bits == address_of(octets@),
            octets_of(r.bits) == octets@,
    {
        let bits = ((octets[0] as u32) << 24) | ((octets[1] as u32) << 16) | ((octets[2] as u32)
            << 8) | (octets[3] as u32);
        proof {
            lemma_octets_round_trip(octets@);
        }
        Ipv4Address { bits }
    }

    /// The octets of the address, as the guest reads them.
    pub fn octets(&self) -> (r: [u8; 4])
        ensures
            r@ == octets_of(self.bits),
            address_of(r@) == self.bits,
    {
        let bits = self.bits;
        let r = [
            (bits >> 24) as u8,
            ((bits >> 16) & 0xff) as u8,
            ((bits >> 8) & 0xff) as u8,
            (bits & 0xff) as u8,
        ];
        proof {
            assert(bits >> 24 <= 0xff) by (bit_vector);
            assert(r@ =~= octets_of(bits));
            lemma_address_round_trip(bits);
        }
        r
    }
}

/// Octets that are put together to an address are the octets of that address.
pub proof fn lemma_octets_round_trip(octets: Seq<u8>)
    requires
        octets.len() == 4,
    ensures
        octets_of(address_of(octets)) == octets,
{
    let a = octets[0];
    let b = octets[1];
    let c = octets[2];
    let d = octets[3];
    let bits = address_of(octets);
    assert(bits == ((a as u32) << 24) | ((b as u32) << 16) | ((c as u32) << 8) | (d as u32));
    assert({
        let w = ((a as u32) << 24) | ((b as u32) << 16) | ((c as u32) << 8) | (d as u32);
        &&& (w >> 24) as u8 == a
        &&& ((w >> 16) & 0xff) as u8 == b
        &&& ((w >> 8) & 0xff) as u8 == c
        &&& (w & 0xff) as u8 == d
    }) by (bit_vector);
    assert(octets_of(bits) =~= octets);
}

/// The octets of an address, put together again, are that address.
pub proof fn lemma_address_round_trip(bits: u32)
    ensures
        address_of(octets_of(bits)) == bits,
{
    assert((((bits >> 24) as u8 as u32) << 24) | ((((bits >> 16) & 0xff) as u8 as u32) << 16) | ((((
    bits >> 8) & 0xff) as u8 as u32) << 8) | ((bits & 0xff) as u8 as u32) == bits) by (bit_vector);
}

/// `core::num::ParseIntError`, which is carried through as it is.
#[verifier::external_type_specification]
#[verifier::external_body]
pub struct ExParseIntError(core::num::ParseIntError);

/// `byte_unit::ByteError`, which is carried through as it is.
#[verifier::external_type_specification]
#[verifier::external_body]
pub struct ExByteError(byte_unit::ByteError);

/// The number that `str::parse::<NonZeroU32>` reads in a text, where it reads one.
pub uninterp spec fn parsed_count(s: Seq<char>) -> Option<u32>;

/// The number of bytes that `byte_unit::Byte::from_str` reads in a text, where it reads one.
pub uninterp spec fn parsed_byte_size(s: Seq<char>) -> Option<u128>;

/// The text that `byte_unit` gives for a number of bytes in the binary unit that suits it.
pub uninterp spec fn appropriate_unit_text(bytes: u128) -> Seq<char>;

/// `NonZeroU32::try_from`: the number itself unless it is zero, as std documents it.
#[verifier::external_body]
fn nonzero(value: u32) -> (r: Result<u32, core::num::TryFromIntError>)
    ensures
        r is Ok <==> value != 0,
        r matches Ok(n) ==> n == value,
{
    core::num::NonZeroU32::try_from(value).map(|n| n.get())
}

/// `str::parse::<NonZeroU32>`. Claimed without proof: the result depends on
/// the text alone, and a number that is read is not zero.
#[verifier::external_body]
fn parse_nonzero(s: &str) -> (r: Result<u32, core::num::ParseIntError>)
    ensures
        r is Ok <==> parsed_count(s@) is Some,
        r matches Ok(n) ==> n != 0 && parsed_count(s@) == Some(n),
{
    s.parse::<core::num::NonZeroU32>().map(|n| n.get())
}

/// `byte_unit::Byte::from_str`, then `Byte::get_bytes`. Claimed without
/// proof: the result depends on the text alone.
#[verifier::external_body]
fn parse_byte_size(s: &str) -> (r: Result<u128, byte_unit::ByteError>)
    ensures
        r is Ok <==> parsed_byte_size(s@) is Some,
        r matches Ok(n) ==> parsed_byte_size(s@) == Some(n),
{
    byte_unit::Byte::from_str(s).map(|b| b.get_bytes())
}

/// `byte_unit::Byte::get_appropriate_unit` with binary multiples, then the
/// text of the result. Claimed without proof: the text depends on the number
/// alone.
#[verifier::external_body]
fn format_byte_size(bytes: u128) -> (r: String)
    ensures
        r@ == appropriate_unit_text(bytes),
{
    byte_unit::Byte::from_bytes(bytes).get_appropriate_unit(true).to_string()
}

/// Number of the processors of a guest: at least one.
#[derive(Clone, Copy, Debug)]
pub struct CpuCount(u32);

impl View for CpuCount {
    type V = u32;

    closed spec fn view(&self) -> u32 {
        self.0
    }
}

impl CpuCount {
    /// Every count is at least one.
    #[verifier::type_invariant]
    spec fn is_nonzero(self) -> bool {
        self.0 != 0
    }

    /// The count as a number.
    pub fn get(self) -> (r: u32)
        ensures
            r == self@,
            r >= 1,
    {
        proof {
            use_type_invariant(&self);
        }
        self.0
    }

    /// The count `value`, unless it is zero.
    pub fn try_from(value: u32) -> (r: Result<CpuCount, core::num::TryFromIntError>)
        ensures
            r is Ok <==> value != 0,
            r matches Ok(count) ==> count@ == value,
    {
        match nonzero(value) {
            Ok(n) => Ok(CpuCount(n)),
            Err(e) => Err(e),
        }
    }

    /// The count that the text `s` states.
    pub fn from_str(s: &str) -> (r: Result<CpuCount, core::num::ParseIntError>)
        ensures
            r is Ok <==> parsed_count(s@) is Some,
            r matches Ok(count) ==> parsed_count(s@) == Some(count@),
    {
        match parse_nonzero(s) {
            Ok(n) => Ok(CpuCount(n)),
            Err(e) => Err(e),
        }
    }
}

impl Default for CpuCount {
    /// One processor.
    fn default() -> (r: CpuCount)
        ensures
            r@ == 1,
    {
        CpuCount(1)
    }
}

/// Size of the guest's memory in bytes: at least `MINIMUM_MEMORY_SIZE`.
#[derive(Clone, Copy, Debug)]
pub struct GuestMemorySize(u128);

impl View for GuestMemorySize {
    type V = u128;

    closed spec fn view(&self) -> u128 {
        self.0
    }
}

/// A size that is too small for a guest.
#[derive(Clone, Copy, Debug)]
pub struct InvalidGuestMemorySizeError(pub u128);

/// Why a text states no size of guest memory.
#[derive(Debug)]
pub enum ParseByteError {
    /// The text is no size.
    Parse(byte_unit::ByteError),
    /// The size is too small.
    InvalidMemorySize(InvalidGuestMemorySizeError),
}

impl InvalidGuestMemorySizeError {
    /// The complaint, with the minimum and the size that was asked for.
    pub fn to_string(&self) -> (r: String)
        ensures
            r@ == "invalid amount of guest memory (minimum: "@ + appropriate_unit_text(
                MINIMUM_MEMORY_SIZE,
            ) + ", found "@ + appropriate_unit_text(self.0) + ")"@,
    {
        let minimum = format_byte_size(GuestMemorySize::minimum());
        let found = format_byte_size(self.0);
        let mut r = String::from_str("invalid amount of guest memory (minimum: ");
        r.append(minimum.as_str());
        r.append(", found ");
        r.append(found.as_str());
        r.append(")");
        r
    }
}

impl GuestMemorySize {
    /// Every size is at least the minimum.
    #[verifier::type_invariant]
    spec fn is_large_enough(self) -> bool {
        self.0 >= MINIMUM_MEMORY_SIZE
    }

    /// The smallest size: 16 MiB.
    pub fn minimum() -> (r: u128)
        ensures
            r == MINIMUM_MEMORY_SIZE,
    {
        MINIMUM_MEMORY_SIZE
    }

    /// The size in bytes, whatever the host can address.
    pub fn get_bytes(self) -> (r: u128)
        ensures
            r == self@,
            r >= MINIMUM_MEMORY_SIZE,
    {
        proof {
            use_type_invariant(&self);
        }
        self.0
    }

    /// The size in bytes.
    pub fn get(self) -> (r: usize)
        requires
            self@ <= usize::MAX,
        ensures
            r == self@,
            r >= MINIMUM_MEMORY_SIZE,
    {
        proof {
            use_type_invariant(&self);
        }
        self.0 as usize
    }

    /// The size of `value` bytes, unless that is below the minimum.
    pub fn try_from(value: u128) -> (r: Result<GuestMemorySize, InvalidGuestMemorySizeError>)
        ensures
            r is Ok <==> value >= MINIMUM_MEMORY_SIZE,
            r matches Ok(size) ==> size@ == value,
            r matches Err(e) ==> e.0 == value,
    {
        if value >= GuestMemorySize::minimum() {
            Ok(GuestMemorySize(value))
        } else {
            Err(InvalidGuestMemorySizeError(value))
        }
    }

    /// The size that the text `s` states, such as `64MiB`.
    pub fn from_str(s: &str) -> (r: Result<GuestMemorySize, ParseByteError>)
        ensures
            r is Ok <==> (parsed_byte_size(s@) matches Some(n) && n >= MINIMUM_MEMORY_SIZE),
            r matches Ok(size) ==> parsed_byte_size(s@) == Some(size@),
            r matches Err(ParseByteError::Parse(_)) <==> parsed_byte_size(s@) is None,
            r matches Err(ParseByteError::InvalidMemorySize(e)) ==> parsed_byte_size(s@) == Some(
                e.0,
            ),
    {
        match parse_byte_size(s) {
            Err(e) => Err(ParseByteError::Parse(e)),
            Ok(requested) => GuestMemorySize::size_of_parsed(requested),
        }
    }

    /// What `from_str` makes of the `requested` bytes that the parser read.
    pub fn size_of_parsed(requested: u128) -> (r: Result<GuestMemorySize, ParseByteError>)
        ensures
            r is Ok <==> requested >= MINIMUM_MEMORY_SIZE,
            r matches Ok(size) ==> size@ == requested,
            r matches Err(e) ==> e matches ParseByteError::InvalidMemorySize(e) && e.0 == requested,
    {
        match GuestMemorySize::try_from(requested) {
            Ok(size) => Ok(size),
            Err(e) => Err(ParseByteError::InvalidMemorySize(e)),
        }
    }

    /// The size as a text in the binary unit that suits it.
    pub fn to_string(&self) -> (r: String)
        ensures
            r@ == appropriate_unit_text(self@),
    {
        format_byte_size(self.0)
    }
}

impl Default for GuestMemorySize {
    /// 64 MiB.
    fn default() -> (r: GuestMemorySize)
        ensures
            r@ == DEFAULT_MEMORY_SIZE,
    {
        GuestMemorySize(DEFAULT_MEMORY_SIZE)
    }
}

/// The configuration that a virtual machine is built from.
#[derive(Clone, Debug)]
pub struct Params {
    /// Print kernel messages.
    pub verbose: bool,
    /// Guest RAM size.
    pub memory_size: GuestMemorySize,
    /// Advise transparent huge pages.
    pub thp: bool,
    /// Advise kernel same-page merging.
    pub ksm: bool,
    /// Number of guest CPUs.
    pub cpu_count: CpuCount,
    /// Port of the debugger's server.
    pub gdb_port: Option<u16>,
    /// Guest IP address.
    pub ip: Option<Ipv4Address>,
    /// Guest gateway address.
    pub gateway: Option<Ipv4Address>,
    /// Guest network mask.
    pub mask: Option<Ipv4Address>,
    /// Name of the network interface.
    pub nic: Option<String>,
}

impl Default for Params {
    /// Quiet, 64 MiB, one processor, both memory hints, no debugger, no network.
    fn default() -> (r: Params)
        ensures
            !r.verbose,
            r.memory_size@ == DEFAULT_MEMORY_SIZE,
            r.thp,
            r.ksm,
            r.cpu_count@ == 1,
            r.gdb_port is None,
            r.ip is None,
            r.gateway is None,
            r.mask is None,
            r.nic is None,
    {
        Params {
            verbose: false,
            memory_size: GuestMemorySize::default(),
            thp: true,
            ksm: true,
            cpu_count: CpuCount::default(),
            gdb_port: None,
            ip: None,
            gateway: None,
            mask: None,
            nic: None,
        }
    }
}

} // verus!
