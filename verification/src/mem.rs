//! Guest physical memory as a sequence of bytes, indexed by guest physical
//! address, and the loads and stores the hypervisor makes in it.

use vstd::prelude::*;
use vstd::bytes::{
    spec_u16_from_le_bytes, spec_u16_to_le_bytes, spec_u32_from_le_bytes, spec_u32_to_le_bytes,
    spec_u64_from_le_bytes, spec_u64_to_le_bytes, u16_from_le_bytes, u16_to_le_bytes,
    u32_from_le_bytes, u32_to_le_bytes, u64_from_le_bytes, u64_to_le_bytes,
    lemma_auto_spec_u16_to_from_le_bytes, lemma_auto_spec_u32_to_from_le_bytes,
    lemma_auto_spec_u64_to_from_le_bytes,
};
use vstd::slice::slice_subrange;

verus! {

/// Whether the `len` bytes from `addr` on lie inside a memory of `size` bytes.
pub open spec fn in_bounds(size: nat, addr: int, len: int) -> bool {
    0 <= addr && 0 <= len && addr + len <= size
}

/// The `len` bytes of `mem` from `addr` on.
pub open spec fn load(mem: Seq<u8>, addr: int, len: int) -> Seq<u8> {
    mem.subrange(addr, addr + len)
}

/// `mem` with `bytes` stored from `addr` on.
pub open spec fn store(mem: Seq<u8>, addr: int, bytes: Seq<u8>) -> Seq<u8> {
    Seq::new(
        mem.len(),
        |i: int|
            if addr <= i < addr + bytes.len() {
                bytes[i - addr]
            } else {
                mem[i]
            },
    )
}

/// `n` zero bytes.
pub open spec fn zeros(n: nat) -> Seq<u8> {
    Seq::new(n, |i: int| 0u8)
}

/// The little-endian 16-bit word of `mem` at `addr`.
pub open spec fn u16_at(mem: Seq<u8>, addr: int) -> u16 {
    spec_u16_from_le_bytes(load(mem, addr, 2))
}

/// The little-endian 32-bit word of `mem` at `addr`.
pub open spec fn u32_at(mem: Seq<u8>, addr: int) -> u32 {
    spec_u32_from_le_bytes(load(mem, addr, 4))
}

/// The little-endian 64-bit word of `mem` at `addr`.
pub open spec fn u64_at(mem: Seq<u8>, addr: int) -> u64 {
    spec_u64_from_le_bytes(load(mem, addr, 8))
}

/// `mem` with the 16-bit word `value` stored at `addr`.
pub open spec fn store_u16(mem: Seq<u8>, addr: int, value: u16) -> Seq<u8> {
    store(mem, addr, spec_u16_to_le_bytes(value))
}

/// `mem` with the 32-bit word `value` stored at `addr`.
pub open spec fn store_u32(mem: Seq<u8>, addr: int, value: u32) -> Seq<u8> {
    store(mem, addr, spec_u32_to_le_bytes(value))
}

/// `mem` with the 64-bit word `value` stored at `addr`.
pub open spec fn store_u64(mem: Seq<u8>, addr: int, value: u64) -> Seq<u8> {
    store(mem, addr, spec_u64_to_le_bytes(value))
}

/// The host can address every byte of a memory.
pub proof fn lemma_addressable(mem: &[u8])
    ensures
        mem@.len() <= usize::MAX,
{
    assert(mem@.len() == mem.len());
}

/// A store changes the bytes it covers, and no others.
pub proof fn lemma_store(mem: Seq<u8>, addr: int, bytes: Seq<u8>)
    requires
        in_bounds(mem.len(), addr, bytes.len() as int),
    ensures
        store(mem, addr, bytes).len() == mem.len(),
        load(store(mem, addr, bytes), addr, bytes.len() as int) == bytes,
        forall|i: int|
            0 <= i < mem.len() && !(addr <= i < addr + bytes.len()) ==> store(mem, addr, bytes)[i]
                == mem[i],
        forall|i: int| addr <= i < addr + bytes.len() ==> store(mem, addr, bytes)[i] == bytes[i - addr],
{
    assert(load(store(mem, addr, bytes), addr, bytes.len() as int) =~= bytes);
}

/// A load sees nothing of a store to bytes that it does not cover.
pub proof fn lemma_load_apart(mem: Seq<u8>, addr: int, bytes: Seq<u8>, at: int, len: int)
    requires
        in_bounds(mem.len(), at, len),
        at + len <= addr || addr + bytes.len() <= at,
    ensures
        load(store(mem, addr, bytes), at, len) == load(mem, at, len),
{
    assert(load(store(mem, addr, bytes), at, len) =~= load(mem, at, len));
}

/// A word that was stored is the word that is loaded again.
pub proof fn lemma_word_round_trip(mem: Seq<u8>, addr: int)
    ensures
        forall|v: u16|
            in_bounds(mem.len(), addr, 2) ==> u16_at(#[trigger] store_u16(mem, addr, v), addr) == v,
        forall|v: u32|
            in_bounds(mem.len(), addr, 4) ==> u32_at(#[trigger] store_u32(mem, addr, v), addr) == v,
        forall|v: u64|
            in_bounds(mem.len(), addr, 8) ==> u64_at(#[trigger] store_u64(mem, addr, v), addr) == v,
{
    lemma_auto_spec_u16_to_from_le_bytes();
    lemma_auto_spec_u32_to_from_le_bytes();
    lemma_auto_spec_u64_to_from_le_bytes();
    assert forall|v: u16| in_bounds(mem.len(), addr, 2) implies u16_at(
        #[trigger] store_u16(mem, addr, v),
        addr,
    ) == v by {
        lemma_store(mem, addr, spec_u16_to_le_bytes(v));
    }
    assert forall|v: u32| in_bounds(mem.len(), addr, 4) implies u32_at(
        #[trigger] store_u32(mem, addr, v),
        addr,
    ) == v by {
        lemma_store(mem, addr, spec_u32_to_le_bytes(v));
    }
    assert forall|v: u64| in_bounds(mem.len(), addr, 8) implies u64_at(
        #[trigger] store_u64(mem, addr, v),
        addr,
    ) == v by {
        lemma_store(mem, addr, spec_u64_to_le_bytes(v));
    }
}

/// Copies `src` into `mem` from `addr` on.
pub fn copy_into(mem: &mut [u8], addr: usize, src: &[u8])
    requires
        in_bounds(old(mem)@.len(), addr as int, src@.len() as int),
    ensures
        final(mem)@ == store(old(mem)@, addr as int, src@),
{
    let n = src.len();
    proof {
        lemma_addressable(mem);
    }
    let mut i: usize = 0;
    while i < n
        invariant
            i <= n,
            n == src@.len(),
            addr + n <= mem@.len() <= usize::MAX,
            mem@.len() == old(mem)@.len(),
            mem@ == store(old(mem)@, addr as int, src@.subrange(0, i as int)),
        decreases n - i,
    {
        mem[addr + i] = src[i];
        i += 1;
        assert(mem@ =~= store(old(mem)@, addr as int, src@.subrange(0, i as int)));
    }
    assert(src@.subrange(0, n as int) =~= src@);
    assert(mem@ =~= store(old(mem)@, addr as int, src@));
}

/// Sets the `len` bytes from `addr` on to zero.
pub fn fill_zero(mem: &mut [u8], addr: usize, len: usize)
    requires
        in_bounds(old(mem)@.len(), addr as int, len as int),
    ensures
        final(mem)@ == store(old(mem)@, addr as int, zeros(len as nat)),
{
    proof {
        lemma_addressable(mem);
    }
    let mut i: usize = 0;
    while i < len
        invariant
            i <= len,
            addr + len <= mem@.len() <= usize::MAX,
            mem@.len() == old(mem)@.len(),
            mem@ == store(old(mem)@, addr as int, zeros(i as nat)),
        decreases len - i,
    {
        mem[addr + i] = 0;
        i += 1;
        assert(mem@ =~= store(old(mem)@, addr as int, zeros(i as nat)));
    }
    assert(mem@ =~= store(old(mem)@, addr as int, zeros(len as nat)));
}

/// A copy of the `len` bytes from `addr` on.
pub fn read_bytes(mem: &[u8], addr: usize, len: usize) -> (r: Vec<u8>)
    requires
        in_bounds(mem@.len(), addr as int, len as int),
    ensures
        r@ == load(mem@, addr as int, len as int),
{
    proof {
        lemma_addressable(mem);
    }
    let mut r: Vec<u8> = Vec::new();
    let mut i: usize = 0;
    while i < len
        invariant
            i <= len,
            addr + len <= mem@.len() <= usize::MAX,
            r@ == load(mem@, addr as int, i as int),
        decreases len - i,
    {
        r.push(mem[addr + i]);
        i += 1;
        assert(r@ =~= load(mem@, addr as int, i as int));
    }
    r
}

/// The 16-bit word at `addr`.
pub fn read_u16(mem: &[u8], addr: usize) -> (r: u16)
    requires
        in_bounds(mem@.len(), addr as int, 2),
    ensures
        r == u16_at(mem@, addr as int),
{
    proof {
        lemma_addressable(mem);
    }
    u16_from_le_bytes(slice_subrange(mem, addr, addr + 2))
}

/// The 32-bit word at `addr`.
pub fn read_u32(mem: &[u8], addr: usize) -> (r: u32)
    requires
        in_bounds(mem@.len(), addr as int, 4),
    ensures
        r == u32_at(mem@, addr as int),
{
    proof {
        lemma_addressable(mem);
    }
    u32_from_le_bytes(slice_subrange(mem, addr, addr + 4))
}

/// The 64-bit word at `addr`.
pub fn read_u64(mem: &[u8], addr: usize) -> (r: u64)
    requires
        in_bounds(mem@.len(), addr as int, 8),
    ensures
        r == u64_at(mem@, addr as int),
{
    proof {
        lemma_addressable(mem);
    }
    u64_from_le_bytes(slice_subrange(mem, addr, addr + 8))
}

/// Stores the 16-bit word `value` at `addr`.
pub fn write_u16(mem: &mut [u8], addr: usize, value: u16)
    requires
        in_bounds(old(mem)@.len(), addr as int, 2),
    ensures
        final(mem)@ == store_u16(old(mem)@, addr as int, value),
{
    proof {
        lemma_auto_spec_u16_to_from_le_bytes();
    }
    let bytes = u16_to_le_bytes(value);
    copy_into(mem, addr, bytes.as_slice());
}

/// Stores the 32-bit word `value` at `addr`.
pub fn write_u32(mem: &mut [u8], addr: usize, value: u32)
    requires
        in_bounds(old(mem)@.len(), addr as int, 4),
    ensures
        final(mem)@ == store_u32(old(mem)@, addr as int, value),
{
    proof {
        lemma_auto_spec_u32_to_from_le_bytes();
    }
    let bytes = u32_to_le_bytes(value);
    copy_into(mem, addr, bytes.as_slice());
}

/// Stores the 64-bit word `value` at `addr`.
pub fn write_u64(mem: &mut [u8], addr: usize, value: u64)
    requires
        in_bounds(old(mem)@.len(), addr as int, 8),
    ensures
        final(mem)@ == store_u64(old(mem)@, addr as int, value),
{
    proof {
        lemma_auto_spec_u64_to_from_le_bytes();
    }
    let bytes = u64_to_le_bytes(value);
    copy_into(mem, addr, bytes.as_slice());
}

/// The little-endian signed 32-bit word of `mem` at `addr`.
pub open spec fn i32_at(mem: Seq<u8>, addr: int) -> i32 {
    u32_at(mem, addr) as i32
}

/// The little-endian signed 64-bit word of `mem` at `addr`.
pub open spec fn i64_at(mem: Seq<u8>, addr: int) -> i64 {
    u64_at(mem, addr) as i64
}

/// `mem` with the signed 32-bit word `value` stored at `addr`.
pub open spec fn store_i32(mem: Seq<u8>, addr: int, value: i32) -> Seq<u8> {
    store_u32(mem, addr, value as u32)
}

/// `mem` with the signed 64-bit word `value` stored at `addr`.
pub open spec fn store_i64(mem: Seq<u8>, addr: int, value: i64) -> Seq<u8> {
    store_u64(mem, addr, value as u64)
}

/// A signed word that was stored is the word that is loaded again.
pub proof fn lemma_signed_round_trip(mem: Seq<u8>, addr: int)
    ensures
        forall|v: i32|
            in_bounds(mem.len(), addr, 4) ==> i32_at(#[trigger] store_i32(mem, addr, v), addr) == v,
        forall|v: i64|
            in_bounds(mem.len(), addr, 8) ==> i64_at(#[trigger] store_i64(mem, addr, v), addr) == v,
{
    lemma_word_round_trip(mem, addr);
    assert forall|v: i32| in_bounds(mem.len(), addr, 4) implies i32_at(
        #[trigger] store_i32(mem, addr, v),
        addr,
    ) == v by {
        assert((v as u32) as i32 == v) by (bit_vector);
        assert(u32_at(store_u32(mem, addr, v as u32), addr) == v as u32);
    }
    assert forall|v: i64| in_bounds(mem.len(), addr, 8) implies i64_at(
        #[trigger] store_i64(mem, addr, v),
        addr,
    ) == v by {
        assert((v as u64) as i64 == v) by (bit_vector);
        assert(u64_at(store_u64(mem, addr, v as u64), addr) == v as u64);
    }
}

/// The signed 32-bit word at `addr`.
pub fn read_i32(mem: &[u8], addr: usize) -> (r: i32)
    requires
        in_bounds(mem@.len(), addr as int, 4),
    ensures
        r == i32_at(mem@, addr as int),
{
    read_u32(mem, addr) as i32
}

/// The signed 64-bit word at `addr`.
pub fn read_i64(mem: &[u8], addr: usize) -> (r: i64)
    requires
        in_bounds(mem@.len(), addr as int, 8),
    ensures
        r == i64_at(mem@, addr as int),
{
    read_u64(mem, addr) as i64
}

/// Stores the signed 32-bit word `value` at `addr`.
pub fn write_i32(mem: &mut [u8], addr: usize, value: i32)
    requires
        in_bounds(old(mem)@.len(), addr as int, 4),
    ensures
        final(mem)@ == store_i32(old(mem)@, addr as int, value),
{
    write_u32(mem, addr, value as u32);
}

/// Stores the signed 64-bit word `value` at `addr`.
pub fn write_i64(mem: &mut [u8], addr: usize, value: i64)
    requires
        in_bounds(old(mem)@.len(), addr as int, 8),
    ensures
        final(mem)@ == store_i64(old(mem)@, addr as int, value),
{
    write_u64(mem, addr, value as u64);
}

/// The index of the first zero byte of `mem` from `addr` on, among the
/// first `n` bytes from there.
pub open spec fn first_zero(mem: Seq<u8>, addr: int, n: nat) -> Option<int>
    decreases n,
{
    if n == 0 {
        None
    } else {
        match first_zero(mem, addr, (n - 1) as nat) {
            Some(i) => Some(i),
            None => if mem[addr + n - 1] == 0 {
                Some(addr + n - 1)
            } else {
                None
            },
        }
    }
}

/// The text that starts at `addr` and ends before the first zero byte, if
/// there is a zero byte in the memory from `addr` on.
pub open spec fn c_string_at(mem: Seq<u8>, addr: int) -> Option<Seq<u8>> {
    if 0 <= addr <= mem.len() {
        match first_zero(mem, addr, (mem.len() - addr) as nat) {
            Some(end) => Some(mem.subrange(addr, end)),
            None => None,
        }
    } else {
        None
    }
}

/// A zero byte with none before it is the first zero byte of every longer
/// stretch.
proof fn lemma_first_zero_found(mem: Seq<u8>, addr: int, end: int, n: nat)
    requires
        0 <= addr <= end < addr + n <= mem.len(),
        first_zero(mem, addr, (end - addr) as nat) is None,
        mem[end] == 0,
    ensures
        first_zero(mem, addr, n) == Some(end),
    decreases n,
{
    if addr + n > end + 1 {
        lemma_first_zero_found(mem, addr, end, (n - 1) as nat);
    }
}

/// Reads the zero-terminated text at `addr`.
pub fn read_c_string(mem: &[u8], addr: usize) -> (r: Option<Vec<u8>>)
    ensures
        match r {
            Some(text) => c_string_at(mem@, addr as int) == Some(text@),
            None => c_string_at(mem@, addr as int) is None,
        },
{
    let size = mem.len();
    if addr > size {
        return None;
    }
    let mut text: Vec<u8> = Vec::new();
    let mut i: usize = addr;
    while i < size
        invariant
            addr <= i <= size,
            size == mem@.len(),
            first_zero(mem@, addr as int, (i - addr) as nat) is None,
            text@ == mem@.subrange(addr as int, i as int),
        decreases size - i,
    {
        if mem[i] == 0 {
            proof {
                lemma_first_zero_found(mem@, addr as int, i as int, (size - addr) as nat);
            }
            return Some(text);
        }
        text.push(mem[i]);
        i += 1;
        assert(text@ =~= mem@.subrange(addr as int, i as int));
    }
    None
}

} // verus!
