//! The packet exchanged on the upcall path: two packed little-endian 32-bit
//! fields, a pointer to a raw byte region in guest memory and that region's
//! length.  Unlike the byte-buffer record, the packet does not prefix the
//! data itself; it only points at it.

use crate::guest_mem::{lemma_splice_parts, splice_bytes, GuestMem};
use vstd::bytes::{
    lemma_auto_spec_u32_to_from_le_bytes, spec_u32_from_le_bytes, spec_u32_to_le_bytes,
};
use vstd::prelude::*;

verus! {

/// Size of an encoded packet: two 32-bit fields, packed.
pub const PACKET_SIZE: usize = 8;

/// A pointer-and-length pair addressing a raw byte region in guest memory.
#[derive(Clone, Copy, PartialEq, Eq, Structural, Debug)]
pub struct IoctlPacket {
    pub buf: u32,
    pub buf_len: u32,
}

/// The packed little-endian image of a packet.
pub open spec fn packet_bytes(p: IoctlPacket) -> Seq<u8> {
    spec_u32_to_le_bytes(p.buf) + spec_u32_to_le_bytes(p.buf_len)
}

/// An encoded packet is eight bytes long.
pub proof fn lemma_packet_bytes_len(p: IoctlPacket)
    ensures
        packet_bytes(p).len() == 8,
{
    lemma_auto_spec_u32_to_from_le_bytes();
}

/// The packet stored at `ptr` in a memory image.
pub open spec fn spec_read_packet(mem: Seq<u8>, ptr: int) -> IoctlPacket {
    IoctlPacket {
        buf: spec_u32_from_le_bytes(mem.subrange(ptr, ptr + 4)),
        buf_len: spec_u32_from_le_bytes(mem.subrange(ptr + 4, ptr + 8)),
    }
}

impl IoctlPacket {
    /// Read the packet stored at `ptr`, or `None` when its eight bytes fall
    /// outside the memory.
    pub fn read_from_mem(mem: &GuestMem, ptr: u32) -> (r: Option<IoctlPacket>)
        requires
            mem.wf(),
        ensures
            match r {
                Some(p) => ptr + 8 <= mem@.len() && p == spec_read_packet(mem@, ptr as int),
                None => ptr + 8 > mem@.len(),
            },
    {
        match mem.read_u32_at(ptr) {
            None => None,
            Some(buf) => {
                match mem.read_u32_at(ptr + 4) {
                    None => None,
                    Some(buf_len) => Some(IoctlPacket { buf, buf_len }),
                }
            },
        }
    }

    /// Write this packet at `ptr`; the eight bytes there afterwards read
    /// back as the packet, and nothing else changed.
    pub fn write_to_mem(&self, mem: &mut GuestMem, ptr: u32)
        requires
            old(mem).wf(),
            ptr + 8 <= old(mem)@.len(),
        ensures
            final(mem).wf(),
            final(mem).spec_brk() == old(mem).spec_brk(),
            final(mem)@.len() == old(mem)@.len(),
            final(mem)@ == splice_bytes(old(mem)@, ptr as int, packet_bytes(*self)),
            spec_read_packet(final(mem)@, ptr as int) == *self,
    {
        proof {
            lemma_auto_spec_u32_to_from_le_bytes();
        }
        mem.write_u32_at(ptr, self.buf);
        let ghost mid = mem@;
        mem.write_u32_at(ptr + 4, self.buf_len);
        proof {
            let a = spec_u32_to_le_bytes(self.buf);
            let b = spec_u32_to_le_bytes(self.buf_len);
            lemma_splice_parts(old(mem)@, ptr as int, a);
            lemma_splice_parts(mid, ptr as int + 4, b);
            lemma_splice_parts(old(mem)@, ptr as int, a + b);
            assert(mem@ =~= splice_bytes(old(mem)@, ptr as int, packet_bytes(*self)));
            assert(mem@.subrange(ptr as int, ptr as int + 4) =~= a);
            assert(mem@.subrange(ptr as int + 4, ptr as int + 8) =~= b);
        }
    }
}

} // verus!
