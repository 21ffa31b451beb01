//! The pipeline's error taxonomy and its propagation across the boundary.
//!
//! Exceptions cannot cross the guest/host boundary, so every step-local
//! failure is folded into one error value which the guest entry point
//! reports as a packed non-zero result: the error text is staged in the
//! arena and its location returned as a packed pointer/length value.

use vstd::prelude::*;
use crate::abi;
use crate::arena::{Arena, Region};

verus! {

/// What went wrong, by pipeline step.
#[derive(Clone, Copy, PartialEq, Eq, Structural, Debug)]
pub enum ErrorKind {
    /// A malformed or non-UTF-8 envelope.
    Decode,
    /// A fetch failure or a non-success status code.
    Network,
    /// An entry type this pipeline does not handle.
    Unsupported,
    /// A conversion failure while deriving content.
    Extraction,
    /// A chunk could not be assembled from the host's reply.
    ChunkAssembly,
    /// A persistence call failed.
    Persistence,
    /// A catch-all wrapping an upstream message.
    Plugin,
}

/// A failure as the pipeline reports it: the step taxonomy plus a
/// diagnostic message.
#[derive(Debug)]
pub struct PipelineError {
    pub kind: ErrorKind,
    pub message: String,
}

/// A stable one-byte tag for each error kind, part of the error packet.
pub open spec fn spec_kind_tag(k: ErrorKind) -> u8 {
    match k {
        ErrorKind::Decode => 1,
        ErrorKind::Network => 2,
        ErrorKind::Unsupported => 3,
        ErrorKind::Extraction => 4,
        ErrorKind::ChunkAssembly => 5,
        ErrorKind::Persistence => 6,
        ErrorKind::Plugin => 7,
    }
}

/// Returns the tag byte of an error kind.
pub fn kind_tag(k: ErrorKind) -> (r: u8)
    ensures
        r == spec_kind_tag(k),
{
    match k {
        ErrorKind::Decode => 1,
        ErrorKind::Network => 2,
        ErrorKind::Unsupported => 3,
        ErrorKind::Extraction => 4,
        ErrorKind::ChunkAssembly => 5,
        ErrorKind::Persistence => 6,
        ErrorKind::Plugin => 7,
    }
}

/// The bytes of an error packet: the kind's tag byte followed by the
/// UTF-8 bytes of the message.
pub open spec fn spec_error_packet(k: ErrorKind, message: Seq<char>) -> Seq<u8> {
    seq![spec_kind_tag(k)] + vstd::utf8::encode_utf8(message)
}

/// The reserved packed value that reports a failure for which no buffer
/// could be staged: its length half is zero, so it carries no buffer, and
/// its address half is all ones, so it can never read as success.
pub const NO_BUFFER_SENTINEL: u64 = 0xFFFF_FFFF_0000_0000;

/// The error packet for this message fits the arena's remaining 32-bit
/// address space: the message's byte count fits the length half, and the
/// tag byte plus the message still fit below the address limit.
pub open spec fn spec_packet_fits(pre: &Arena, message: Seq<char>) -> bool {
    &&& vstd::utf8::encode_utf8(message).len() < u32::MAX
    &&& pre.watermark() + 1 + vstd::utf8::encode_utf8(message).len() <= u32::MAX
}

/// What a packed error result owes its reader: it is never zero, so it
/// cannot read as success; it carries a buffer exactly when the packet
/// fits the arena as it stood before the call, and that buffer is then a
/// live allocation holding the packet, so the host can decode the kind
/// and the message from it; otherwise it is the reserved sentinel.
pub open spec fn spec_error_staged(
    pre: &Arena,
    post: &Arena,
    k: ErrorKind,
    message: Seq<char>,
    r: u64,
) -> bool {
    &&& r != 0
    &&& abi::spec_carries_buffer(r) <==> spec_packet_fits(pre, message)
    &&& abi::spec_carries_buffer(r) ==> {
        &&& post.is_live(abi::spec_packed_ptr(r), abi::spec_packed_len(r))
        &&& post.mem().subrange(
            abi::spec_packed_ptr(r) as int,
            abi::spec_packed_ptr(r) + abi::spec_packed_len(r),
        ) == spec_error_packet(k, message)
    }
    &&& !abi::spec_carries_buffer(r) ==> r == NO_BUFFER_SENTINEL
}

/// Stages an error packet in the arena and returns its packed location,
/// transferring ownership of the staged buffer to the host.  Whenever
/// the packet fits the remaining 32-bit address space the result carries
/// its buffer; only a packet that cannot fit yields the reserved
/// sentinel instead.  Either way the result is non-zero.
pub fn encode_error(a: &mut Arena, e: &PipelineError) -> (r: u64)
    requires
        old(a).wf(),
    ensures
        final(a).wf(),
        spec_error_staged(old(a), final(a), e.kind, e.message@, r),
{
    let msg_bytes: &[u8] = e.message.as_str().as_bytes();
    proof {
        let sentinel_len = NO_BUFFER_SENTINEL % 0x1_0000_0000;
        assert(sentinel_len == 0);
    }
    if msg_bytes.len() >= u32::MAX as usize {
        proof {
            assert(!spec_packet_fits(old(a), e.message@));
        }
        return NO_BUFFER_SENTINEL;
    }
    let mut packet: Vec<u8> = Vec::new();
    packet.push(kind_tag(e.kind));
    let mut i: usize = 0;
    while i < msg_bytes.len()
        invariant
            i <= msg_bytes@.len(),
            packet@ == seq![spec_kind_tag(e.kind)] + msg_bytes@.take(i as int),
        decreases msg_bytes@.len() - i,
    {
        packet.push(msg_bytes[i]);
        proof {
            assert(packet@ =~= seq![spec_kind_tag(e.kind)] + msg_bytes@.take(i + 1));
        }
        i = i + 1;
    }
    proof {
        assert(packet@ =~= spec_error_packet(e.kind, e.message@));
    }
    let size: u32 = packet.len() as u32;
    let ptr: u32 = a.allocate(size);
    if ptr == 0 {
        proof {
            assert(!spec_packet_fits(old(a), e.message@));
        }
        return NO_BUFFER_SENTINEL;
    }
    proof {
        assert(spec_packet_fits(old(a), e.message@));
    }
    proof {
        assert(a.regions()[a.regions().len() - 1] == (Region { ptr, size }));
    }
    a.write(ptr, packet.as_slice());
    let r = abi::pack_ptr_len(ptr, size);
    proof {
        assert(abi::spec_packed_ptr(0u64) == 0);
        assert(r != 0);
    }
    r
}

} // verus!
