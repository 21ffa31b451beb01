//! Packed pointer/length values of the guest/host calling convention.
//!
//! Where a call must convey both a buffer address and a byte count through a
//! single 64-bit return slot, the address occupies the high 32 bits and the
//! length the low 32 bits.  A packed value with a zero address or a zero
//! length carries no buffer.

use vstd::prelude::*;

verus! {

/// The meaning of a packed value: address in the high half, length in the
/// low half.
pub open spec fn spec_pack(ptr: u32, len: u32) -> u64 {
    ((ptr as u64) * 0x1_0000_0000 + (len as u64)) as u64
}

/// The address half of a packed value.
pub open spec fn spec_packed_ptr(v: u64) -> u32 {
    (v / 0x1_0000_0000) as u32
}

/// The length half of a packed value.
pub open spec fn spec_packed_len(v: u64) -> u32 {
    (v % 0x1_0000_0000) as u32
}

/// Packs a buffer address and length into one 64-bit value.
pub fn pack_ptr_len(ptr: u32, len: u32) -> (r: u64)
    ensures
        r == spec_pack(ptr, len),
        spec_packed_ptr(r) == ptr,
        spec_packed_len(r) == len,
{
    let r: u64 = ((ptr as u64) << 32u64) | (len as u64);
    proof {
        assert(r == spec_pack(ptr, len) && r / 0x1_0000_0000 == ptr as u64 && r % 0x1_0000_0000
            == len as u64) by (bit_vector)
            requires
                r == ((ptr as u64) << 32u64) | (len as u64),
        ;
    }
    r
}

/// Splits a packed value back into its address and length halves.
pub fn unpack_ptr_len(v: u64) -> (r: (u32, u32))
    ensures
        r.0 == spec_packed_ptr(v),
        r.1 == spec_packed_len(v),
        v == spec_pack(r.0, r.1),
{
    let ptr: u32 = (v >> 32u64) as u32;
    let len: u32 = (v & 0xFFFF_FFFFu64) as u32;
    proof {
        assert((((v >> 32u64) as u32) as u64) == v / 0x1_0000_0000 && (((v & 0xFFFF_FFFFu64) as u32)
            as u64) == v % 0x1_0000_0000 && v == (v / 0x1_0000_0000) * 0x1_0000_0000 + (v
            % 0x1_0000_0000)) by (bit_vector);
    }
    (ptr, len)
}

/// Packing then unpacking returns the address and length unchanged, for
/// every address and length.
pub proof fn lemma_pack_unpack(ptr: u32, len: u32)
    ensures
        spec_packed_ptr(spec_pack(ptr, len)) == ptr,
        spec_packed_len(spec_pack(ptr, len)) == len,
{
    let v = spec_pack(ptr, len);
    assert(v / 0x1_0000_0000 == ptr as u64 && v % 0x1_0000_0000 == len as u64) by (bit_vector)
        requires
            v == ((ptr as u64) * 0x1_0000_0000 + (len as u64)) as u64,
    ;
}

/// A packed value carries a buffer only when both halves are non-zero; the
/// all-zero value doubles as the success code of the guest entry point.
pub open spec fn spec_carries_buffer(v: u64) -> bool {
    spec_packed_ptr(v) != 0 && spec_packed_len(v) != 0
}

/// Splits a packed value, demanding a real buffer: a zero address or zero
/// length yields `None`.
pub fn decode_buffer_location(v: u64) -> (r: Option<(u32, u32)>)
    ensures
        spec_carries_buffer(v) ==> r == Some((spec_packed_ptr(v), spec_packed_len(v))),
        !spec_carries_buffer(v) ==> r is None,
{
    let (ptr, len) = unpack_ptr_len(v);
    if ptr == 0 || len == 0 {
        None
    } else {
        Some((ptr, len))
    }
}

} // verus!
