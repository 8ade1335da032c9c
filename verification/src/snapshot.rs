//! Full-copy snapshots of the guest linear memory.  A snapshot is nothing
//! but the byte vector observed while no guest code runs; restoring copies
//! the first `min(current size, snapshot size)` bytes back and never grows
//! or shrinks the memory.

use crate::guest_mem::{lemma_splice_parts, GuestMem};
use vstd::math::min;
use vstd::prelude::*;
use vstd::slice::{slice_subrange, slice_to_vec};

verus! {

/// What a restore leaves in memory: the snapshot up to the shorter of the
/// two lengths, and the tail of the current memory beyond it.
pub open spec fn restore_view(snap: Seq<u8>, mem: Seq<u8>) -> Seq<u8> {
    snap.take(min(snap.len() as int, mem.len() as int)) + mem.skip(
        min(snap.len() as int, mem.len() as int),
    )
}

/// A byte-for-byte copy of the guest linear memory at an instant.
pub struct Snapshot {
    data: Vec<u8>,
}

impl View for Snapshot {
    type V = Seq<u8>;

    closed spec fn view(&self) -> Seq<u8> {
        self.data@
    }
}

impl Snapshot {
    /// Capture the current memory contents in full.
    pub fn capture(mem: &GuestMem) -> (r: Snapshot)
        requires
            mem.wf(),
        ensures
            r@ == mem@,
    {
        let size = mem.size();
        let data = match mem.read_range(0, size as u32) {
            Some(d) => d,
            None => Vec::new(),
        };
        proof {
            assert(mem@.subrange(0, mem@.len() as int) =~= mem@);
        }
        Snapshot { data }
    }

    /// Overwrite the start of the memory with the snapshot, up to the
    /// shorter of the two lengths.  Trailing memory beyond the snapshot is
    /// left untouched; trailing snapshot bytes beyond the current memory
    /// are dropped.  The allocator's state is not part of the snapshot.
    pub fn restore(&self, mem: &mut GuestMem)
        requires
            old(mem).wf(),
        ensures
            final(mem).wf(),
            final(mem).spec_brk() == old(mem).spec_brk(),
            final(mem)@ == restore_view(self@, old(mem)@),
    {
        let mem_len = mem.size();
        let copy_len = if self.data.len() < mem_len {
            self.data.len()
        } else {
            mem_len
        };
        let prefix = slice_to_vec(slice_subrange(self.data.as_slice(), 0, copy_len));
        mem.write_bytes(0, &prefix);
        proof {
            lemma_splice_parts(old(mem)@, 0, prefix@);
            assert(prefix@ =~= self@.take(min(self@.len() as int, old(mem)@.len() as int)));
            assert(final(mem)@ =~= restore_view(self@, old(mem)@));
        }
    }

    /// Replace the snapshot with the current memory contents.
    pub fn update(&mut self, mem: &GuestMem)
        requires
            mem.wf(),
        ensures
            final(self)@ == mem@,
    {
        let fresh = Snapshot::capture(mem);
        self.data = fresh.data;
    }

    /// Size of the captured memory in bytes.
    pub fn size(&self) -> (r: usize)
        ensures
            r == self@.len(),
    {
        self.data.len()
    }
}

/// A snapshot restored over a memory of the size it was captured from
/// brings the memory back to byte equality with the capture point, whatever
/// was written in between: when the sizes match, the restored contents are
/// the snapshot itself.
pub proof fn lemma_restore_round_trip(snap: Seq<u8>, mem: Seq<u8>)
    requires
        snap.len() == mem.len(),
    ensures
        restore_view(snap, mem) == snap,
{
    assert(restore_view(snap, mem) =~= snap);
}

} // verus!
