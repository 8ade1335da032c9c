//! The length-prefixed byte-buffer record used for all data that crosses the
//! guest boundary: a little-endian 32-bit length header followed by exactly
//! that many payload bytes.  Zero-length buffers are permitted and consist of
//! the header alone.

use vstd::bytes::{
    lemma_auto_spec_u32_to_from_le_bytes, spec_u32_from_le_bytes, spec_u32_to_le_bytes,
    u32_from_le_bytes, u32_to_le_bytes,
};
use vstd::prelude::*;
use vstd::slice::{slice_subrange, slice_to_vec};

verus! {

/// Number of bytes of the length header.
pub const HEADER_SIZE: usize = 4;

/// The encoded form of a buffer with the given payload: the little-endian
/// bytes of the payload length, then the payload itself.
pub open spec fn record_bytes(payload: Seq<u8>) -> Seq<u8> {
    spec_u32_to_le_bytes(payload.len() as u32) + payload
}

/// The length header stored at `ptr` in a memory image.
pub open spec fn spec_header_len(mem: Seq<u8>, ptr: int) -> u32 {
    spec_u32_from_le_bytes(mem.subrange(ptr, ptr + 4))
}

/// True when a whole record, header and payload, lies inside `mem` at `ptr`.
pub open spec fn record_in_bounds(mem: Seq<u8>, ptr: int) -> bool {
    &&& 0 <= ptr
    &&& ptr + 4 <= mem.len()
    &&& ptr + 4 + spec_header_len(mem, ptr) <= mem.len()
}

/// The payload of the record stored at `ptr` in a memory image.
pub open spec fn spec_record_payload(mem: Seq<u8>, ptr: int) -> Seq<u8> {
    mem.subrange(ptr + 4, ptr + 4 + spec_header_len(mem, ptr))
}

/// Encode a payload as a record image, ready to be written into guest
/// memory at the pointer that will address the buffer.
pub fn encode_record(payload: &Vec<u8>) -> (r: Vec<u8>)
    requires
        payload@.len() <= u32::MAX,
    ensures
        r@ == record_bytes(payload@),
        r@.len() == 4 + payload@.len(),
{
    proof {
        lemma_auto_spec_u32_to_from_le_bytes();
    }
    let mut r = u32_to_le_bytes(payload.len() as u32);
    let mut tail = slice_to_vec(payload.as_slice());
    r.append(&mut tail);
    r
}

/// Decode the record stored at `ptr` inside a memory image, returning its
/// payload, or `None` when the header or the payload would fall outside the
/// image.
pub fn parse_record(mem: &Vec<u8>, ptr: usize) -> (r: Option<Vec<u8>>)
    ensures
        match r {
            Some(p) => record_in_bounds(mem@, ptr as int) && p@ == spec_record_payload(
                mem@,
                ptr as int,
            ),
            None => !record_in_bounds(mem@, ptr as int),
        },
{
    proof {
        lemma_auto_spec_u32_to_from_le_bytes();
    }
    if mem.len() < 4 || ptr > mem.len() - 4 {
        return None;
    }
    let header = slice_subrange(mem.as_slice(), ptr, ptr + 4);
    let len = u32_from_le_bytes(header) as usize;
    if len > mem.len() - (ptr + 4) {
        return None;
    }
    let payload = slice_subrange(mem.as_slice(), ptr + 4, ptr + 4 + len);
    Some(slice_to_vec(payload))
}

/// Writing a record image at `ptr` and reading it back yields the payload
/// that was encoded: the record format loses nothing, for any payload,
/// including the empty one.
pub proof fn lemma_record_round_trip(mem: Seq<u8>, ptr: int, payload: Seq<u8>)
    requires
        payload.len() <= u32::MAX,
        0 <= ptr,
        ptr + 4 + payload.len() <= mem.len(),
        mem.subrange(ptr, ptr + 4 + payload.len() as int) == record_bytes(payload),
    ensures
        record_in_bounds(mem, ptr),
        spec_record_payload(mem, ptr) == payload,
{
    lemma_auto_spec_u32_to_from_le_bytes();
    let written = mem.subrange(ptr, ptr + 4 + payload.len() as int);
    assert(mem.subrange(ptr, ptr + 4) =~= written.subrange(0, 4));
    assert(written.subrange(0, 4) =~= spec_u32_to_le_bytes(payload.len() as u32));
    assert(spec_header_len(mem, ptr) == payload.len() as u32);
    assert(mem.subrange(ptr + 4, ptr + 4 + payload.len() as int) =~= written.subrange(
        4,
        4 + payload.len() as int,
    ));
    assert(written.subrange(4, 4 + payload.len() as int) =~= payload);
}

} // verus!
