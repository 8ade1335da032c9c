//! The guest's linear memory and its allocator, as the host-visible surface:
//! a flat byte array addressed by 32-bit pointers, an `alloc_mem` that hands
//! out fresh in-bounds regions, and the byte-buffer operations that build and
//! read length-prefixed records inside the memory.
//!
//! The allocator is a bump allocator over the flat array; `free_mem` retains
//! the bytes.  Nothing in the contracts of this crate distinguishes that from
//! a reusing heap, because a released buffer is never read again: every
//! region a caller may rely on came from a fresh allocation.
//!
//! Pointer `0` is never handed out (allocation starts past a reserved
//! prefix), so a zero pointer always means "no buffer".

use crate::bytes_abi::{
    encode_record, lemma_record_round_trip, parse_record, record_bytes, record_in_bounds,
    spec_record_payload,
};
use vstd::bytes::{
    lemma_auto_spec_u32_to_from_le_bytes, spec_u32_from_le_bytes, spec_u32_to_le_bytes,
    u32_from_le_bytes, u32_to_le_bytes,
};
use vstd::prelude::*;
use vstd::slice::{slice_subrange, slice_to_vec};

verus! {

/// The result of overwriting `data.len()` bytes of `mem` at `ptr`.
pub open spec fn splice_bytes(mem: Seq<u8>, ptr: int, data: Seq<u8>) -> Seq<u8>
    recommends
        0 <= ptr,
        ptr + data.len() <= mem.len(),
{
    mem.take(ptr) + data + mem.skip(ptr + data.len())
}

/// How a splice reads back, element by element: the written window holds the
/// new data and everything outside it is unchanged.
pub proof fn lemma_splice_parts(mem: Seq<u8>, ptr: int, data: Seq<u8>)
    requires
        0 <= ptr,
        ptr + data.len() <= mem.len(),
    ensures
        splice_bytes(mem, ptr, data).len() == mem.len(),
        forall|j: int|
            0 <= j < data.len() ==> #[trigger] splice_bytes(mem, ptr, data)[ptr + j] == data[j],
        forall|j: int|
            0 <= j < mem.len() && !(ptr <= j < ptr + data.len()) ==> #[trigger] splice_bytes(
                mem,
                ptr,
                data,
            )[j] == mem[j],
{
}

/// A subrange that lies entirely outside the written window is unchanged by
/// a splice.
pub proof fn lemma_splice_frame(mem: Seq<u8>, ptr: int, data: Seq<u8>, a: int, b: int)
    requires
        0 <= ptr,
        ptr + data.len() <= mem.len(),
        0 <= a <= b <= mem.len(),
        b <= ptr || ptr + data.len() <= a,
    ensures
        splice_bytes(mem, ptr, data).subrange(a, b) == mem.subrange(a, b),
{
    lemma_splice_parts(mem, ptr, data);
    assert(splice_bytes(mem, ptr, data).subrange(a, b) =~= mem.subrange(a, b));
}

/// The written window of a splice reads back as the written data.
pub proof fn lemma_splice_window(mem: Seq<u8>, ptr: int, data: Seq<u8>)
    requires
        0 <= ptr,
        ptr + data.len() <= mem.len(),
    ensures
        splice_bytes(mem, ptr, data).subrange(ptr, ptr + data.len() as int) == data,
{
    lemma_splice_parts(mem, ptr, data);
    assert(splice_bytes(mem, ptr, data).subrange(ptr, ptr + data.len() as int) =~= data);
}

/// Total size of the records for a batch of payloads laid back to back,
/// each taking a 4-byte header plus its payload.
pub open spec fn batch_total(slices: Seq<Vec<u8>>) -> int
    decreases slices.len(),
{
    if slices.len() == 0 {
        0
    } else {
        batch_total(slices.drop_last()) + 4 + slices.last()@.len()
    }
}

pub proof fn lemma_batch_total_nonneg(slices: Seq<Vec<u8>>)
    ensures
        batch_total(slices) >= 0,
    decreases slices.len(),
{
    if slices.len() > 0 {
        lemma_batch_total_nonneg(slices.drop_last());
    }
}

pub proof fn lemma_batch_total_push(slices: Seq<Vec<u8>>, v: Vec<u8>)
    ensures
        batch_total(slices.push(v)) == batch_total(slices) + 4 + v@.len(),
{
    assert(slices.push(v).drop_last() =~= slices);
    assert(slices.push(v).last() == v);
}

pub proof fn lemma_batch_total_take_succ(slices: Seq<Vec<u8>>, i: int)
    requires
        0 <= i < slices.len(),
    ensures
        batch_total(slices.take(i + 1)) == batch_total(slices.take(i)) + 4 + (slices[i])@.len(),
{
    assert(slices.take(i + 1).drop_last() =~= slices.take(i));
    assert(slices.take(i + 1).last() == slices[i]);
}

pub proof fn lemma_batch_total_take_mono(slices: Seq<Vec<u8>>, a: int, b: int)
    requires
        0 <= a <= b <= slices.len(),
    ensures
        batch_total(slices.take(a)) <= batch_total(slices.take(b)),
    decreases b - a,
{
    if a < b {
        lemma_batch_total_take_succ(slices, a);
        lemma_batch_total_take_mono(slices, a + 1, b);
    }
}

/// The pointer value stored little-endian at `ptr_ptr`, for out-pointer
/// arguments of the form "pointer to buffer pointer".
pub open spec fn spec_out_ptr(mem: Seq<u8>, ptr_ptr: int) -> u32 {
    spec_u32_from_le_bytes(mem.subrange(ptr_ptr, ptr_ptr + 4))
}

/// Lowest address the allocator ever hands out; the prefix below it is
/// reserved so that no buffer is ever addressed by pointer `0`.
pub const HEAP_BASE: usize = 8;

/// The guest linear memory: a flat byte array of fixed size with a bump
/// allocator.  The view is the byte contents.
pub struct GuestMem {
    data: Vec<u8>,
    brk: usize,
}

impl View for GuestMem {
    type V = Seq<u8>;

    closed spec fn view(&self) -> Seq<u8> {
        self.data@
    }
}

impl GuestMem {
    /// Address of the next allocation.
    pub closed spec fn spec_brk(&self) -> int {
        self.brk as int
    }

    /// The allocator's bookkeeping stays inside the memory bounds.
    pub open spec fn wf(&self) -> bool {
        HEAP_BASE <= self.spec_brk() <= self@.len() <= u32::MAX
    }

    /// A fresh zeroed memory of `size` bytes.
    pub fn new(size: usize) -> (r: GuestMem)
        requires
            HEAP_BASE <= size <= u32::MAX,
        ensures
            r.wf(),
            r@.len() == size,
            forall|j: int| 0 <= j < size ==> r@[j] == 0u8,
            r.spec_brk() == HEAP_BASE,
    {
        GuestMem { data: vec![0u8; size], brk: HEAP_BASE }
    }

    /// The current top of the heap: the address the next allocation will
    /// return.
    pub fn heap_top(&self) -> (r: usize)
        ensures
            r == self.spec_brk(),
    {
        self.brk
    }

    /// Current memory size in bytes.
    pub fn size(&self) -> (r: usize)
        ensures
            r == self@.len(),
    {
        self.data.len()
    }

    /// Allocate `size` bytes from the in-memory heap.  Returns the pointer
    /// to a fresh region lying wholly inside the memory, or `0` when the
    /// heap is exhausted.  The contents of the memory are untouched either
    /// way.
    pub fn alloc_mem(&mut self, size: usize) -> (r: u32)
        requires
            old(self).wf(),
        ensures
            final(self).wf(),
            final(self)@ == old(self)@,
            (r != 0) <==> (old(self).spec_brk() + size <= old(self)@.len()),
            r != 0 ==> {
                &&& r == old(self).spec_brk()
                &&& HEAP_BASE <= r
                &&& r + size <= final(self)@.len()
                &&& final(self).spec_brk() == old(self).spec_brk() + size
            },
            r == 0 ==> final(self).spec_brk() == old(self).spec_brk(),
    {
        if size <= self.data.len() - self.brk {
            let p = self.brk as u32;
            self.brk = self.brk + size;
            p
        } else {
            0
        }
    }

    /// Release a region previously returned by `alloc_mem`.  This model
    /// allocator retains the bytes; the memory is unchanged.
    pub fn free_mem(&mut self, ptr: u32)
        ensures
            *final(self) == *old(self),
    {
        let _ = ptr;
    }

    /// Copy `len` bytes out of the memory starting at `ptr`, or `None` when
    /// the range falls outside the memory.
    pub fn read_range(&self, ptr: u32, len: u32) -> (r: Option<Vec<u8>>)
        ensures
            match r {
                Some(b) => ptr + len <= self@.len() && b@ == self@.subrange(
                    ptr as int,
                    ptr + len,
                ),
                None => ptr + len > self@.len(),
            },
    {
        let p = ptr as usize;
        let l = len as usize;
        if l <= self.data.len() && p <= self.data.len() - l {
            Some(slice_to_vec(slice_subrange(self.data.as_slice(), p, p + l)))
        } else {
            None
        }
    }

    /// Overwrite the bytes at `ptr` with `data`.
    pub fn write_bytes(&mut self, ptr: u32, data: &Vec<u8>)
        requires
            old(self).wf(),
            ptr + data@.len() <= old(self)@.len(),
        ensures
            final(self).wf(),
            final(self).spec_brk() == old(self).spec_brk(),
            final(self)@ == splice_bytes(old(self)@, ptr as int, data@),
    {
        let base = ptr as usize;
        let mut i: usize = 0;
        while i < data.len()
            invariant
                self.wf(),
                i <= data@.len(),
                base == ptr as int,
                base + data@.len() <= self@.len(),
                self@.len() == old(self)@.len(),
                self.spec_brk() == old(self).spec_brk(),
                forall|j: int| 0 <= j < i ==> self@[base + j] == data@[j],
                forall|j: int|
                    0 <= j < self@.len() && !(base <= j < base + i) ==> self@[j] == old(self)@[j],
            decreases data@.len() - i,
        {
            self.data[base + i] = data[i];
            i += 1;
        }
        proof {
            lemma_splice_parts(old(self)@, ptr as int, data@);
            assert(self@ =~= splice_bytes(old(self)@, ptr as int, data@));
        }
    }

    /// Read the little-endian 32-bit value stored at `ptr`, or `None` when
    /// the four bytes fall outside the memory.
    pub fn read_u32_at(&self, ptr: u32) -> (r: Option<u32>)
        ensures
            match r {
                Some(v) => ptr + 4 <= self@.len() && v == spec_u32_from_le_bytes(
                    self@.subrange(ptr as int, ptr + 4),
                ),
                None => ptr + 4 > self@.len(),
            },
    {
        match self.read_range(ptr, 4) {
            Some(b) => Some(u32_from_le_bytes(b.as_slice())),
            None => None,
        }
    }

    /// Store `v` little-endian at `ptr`.
    pub fn write_u32_at(&mut self, ptr: u32, v: u32)
        requires
            old(self).wf(),
            ptr + 4 <= old(self)@.len(),
        ensures
            final(self).wf(),
            final(self).spec_brk() == old(self).spec_brk(),
            final(self)@ == splice_bytes(old(self)@, ptr as int, spec_u32_to_le_bytes(v)),
    {
        proof {
            lemma_auto_spec_u32_to_from_le_bytes();
        }
        let image = u32_to_le_bytes(v);
        self.write_bytes(ptr, &image);
    }

    /// Allocate a byte-buffer record holding `payload` and write it into the
    /// memory: the header pointer comes back, or `0` when the heap is
    /// exhausted, in which case nothing changed.
    pub fn new_bytes(&mut self, payload: &Vec<u8>) -> (r: u32)
        requires
            old(self).wf(),
            payload@.len() + 4 <= u32::MAX,
        ensures
            final(self).wf(),
            final(self)@.len() == old(self)@.len(),
            (r != 0) <==> (old(self).spec_brk() + 4 + payload@.len() <= old(self)@.len()),
            r == 0 ==> final(self)@ == old(self)@ && final(self).spec_brk() == old(
                self,
            ).spec_brk(),
            r != 0 ==> {
                &&& r == old(self).spec_brk()
                &&& HEAP_BASE <= r
                &&& record_in_bounds(final(self)@, r as int)
                &&& spec_record_payload(final(self)@, r as int) == payload@
                &&& final(self)@ == splice_bytes(old(self)@, r as int, record_bytes(payload@))
                &&& final(self).spec_brk() == old(self).spec_brk() + 4 + payload@.len()
            },
    {
        let total = 4 + payload.len();
        let ptr = self.alloc_mem(total);
        if ptr == 0 {
            return 0;
        }
        let image = encode_record(payload);
        self.write_bytes(ptr, &image);
        proof {
            lemma_splice_window(old(self)@, ptr as int, image@);
            lemma_record_round_trip(self@, ptr as int, payload@);
        }
        ptr
    }

    /// Read back the payload of the record at `ptr`, or `None` when the
    /// record does not lie inside the memory.  Reading is pure.
    pub fn read_bytes(&self, ptr: u32) -> (r: Option<Vec<u8>>)
        ensures
            match r {
                Some(p) => record_in_bounds(self@, ptr as int) && p@ == spec_record_payload(
                    self@,
                    ptr as int,
                ),
                None => !record_in_bounds(self@, ptr as int),
            },
    {
        parse_record(&self.data, ptr as usize)
    }

    /// Allocate one contiguous block holding a byte-buffer record for each
    /// payload in `slices`, back to back, and return the base pointer of the
    /// block together with the pointer to each record.  One allocation serves
    /// every argument of a call, and one `free_mem` of the base releases them
    /// all.  An empty batch allocates nothing and yields a zero base.
    pub fn alloc_batch(&mut self, slices: &Vec<Vec<u8>>) -> (r: Option<(u32, Vec<u32>)>)
        requires
            old(self).wf(),
            forall|n: int| 0 <= n < slices@.len() ==> (#[trigger] slices@[n])@.len() + 4 <= u32::MAX,
            batch_total(slices@) <= u32::MAX,
        ensures
            final(self).wf(),
            final(self)@.len() == old(self)@.len(),
            (r is Some) <==> (slices@.len() == 0 || old(self).spec_brk() + batch_total(slices@)
                <= old(self)@.len()),
            r is None ==> final(self)@ == old(self)@ && final(self).spec_brk() == old(
                self,
            ).spec_brk(),
            slices@.len() == 0 && r is Some ==> {
                &&& (r matches Some((base, ptrs)) && base == 0 && ptrs@.len() == 0)
                &&& final(self)@ == old(self)@
                &&& final(self).spec_brk() == old(self).spec_brk()
            },
            slices@.len() != 0 ==> match r {
                Some((base, ptrs)) => {
                    &&& base == old(self).spec_brk()
                    &&& HEAP_BASE <= base
                    &&& ptrs@.len() == slices@.len()
                    &&& ptrs@[0] == base
                    &&& forall|n: int|
                        0 <= n < slices@.len() ==> #[trigger] ptrs@[n] == base + batch_total(
                            slices@.take(n),
                        )
                    &&& forall|n: int|
                        0 <= n < slices@.len() ==> record_in_bounds(
                            final(self)@,
                            #[trigger] ptrs@[n] as int,
                        ) && spec_record_payload(final(self)@, ptrs@[n] as int) == (
                        slices@[n])@
                    &&& forall|j: int|
                        0 <= j < old(self)@.len() && !(base <= j < base + batch_total(slices@))
                            ==> final(self)@[j] == old(self)@[j]
                    &&& final(self).spec_brk() == old(self).spec_brk() + batch_total(slices@)
                },
                None => true,
            },
    {
        if slices.len() == 0 {
            return Some((0, Vec::new()));
        }
        let ghost all = slices@;
        let mut total: usize = 0;
        let mut k: usize = 0;
        while k < slices.len()
            invariant
                slices@ == all,
                0 <= k <= all.len(),
                total == batch_total(all.take(k as int)),
                batch_total(all) <= u32::MAX,
                forall|n: int| 0 <= n < all.len() ==> (#[trigger] all[n])@.len() + 4 <= u32::MAX,
            decreases all.len() - k,
        {
            proof {
                lemma_batch_total_take_succ(all, k as int);
                lemma_batch_total_take_mono(all, k + 1, all.len() as int);
                assert(all.take(all.len() as int) =~= all);
            }
            total = total + 4 + slices[k].len();
            k += 1;
        }
        proof {
            assert(all.take(all.len() as int) =~= all);
        }
        let base = self.alloc_mem(total);
        if base == 0 {
            return None;
        }
        let mut ptrs: Vec<u32> = Vec::new();
        let mut off: usize = 0;
        let mut i: usize = 0;
        while i < slices.len()
            invariant
                slices@ == all,
                self.wf(),
                self@.len() == old(self)@.len(),
                base == old(self).spec_brk(),
                HEAP_BASE <= base,
                base + total <= self@.len(),
                total == batch_total(all),
                self.spec_brk() == old(self).spec_brk() + total,
                0 <= i <= all.len(),
                ptrs@.len() == i,
                off == batch_total(all.take(i as int)),
                off <= total,
                forall|n: int| 0 <= n < all.len() ==> (#[trigger] all[n])@.len() + 4 <= u32::MAX,
                forall|n: int|
                    0 <= n < i ==> #[trigger] ptrs@[n] == base + batch_total(all.take(n)),
                forall|n: int|
                    0 <= n < i ==> record_in_bounds(self@, #[trigger] ptrs@[n] as int)
                        && spec_record_payload(self@, ptrs@[n] as int) == (all[n])@,
                forall|j: int|
                    0 <= j < self@.len() && !(base <= j < base + off) ==> self@[j] == old(
                        self,
                    )@[j],
            decreases all.len() - i,
        {
            proof {
                lemma_batch_total_take_succ(all, i as int);
                lemma_batch_total_take_mono(all, i + 1, all.len() as int);
                lemma_batch_total_nonneg(all.take(i as int));
                assert(all.take(all.len() as int) =~= all);
            }
            let ptr = base + (off as u32);
            let image = encode_record(&slices[i]);
            let ghost prev = self@;
            self.write_bytes(ptr, &image);
            proof {
                lemma_splice_parts(prev, ptr as int, image@);
                lemma_splice_window(prev, ptr as int, image@);
                lemma_record_round_trip(self@, ptr as int, (all[i as int])@);
                assert forall|n: int| 0 <= n < i implies record_in_bounds(
                    self@,
                    #[trigger] ptrs@[n] as int,
                ) && spec_record_payload(self@, ptrs@[n] as int) == (all[n])@ by {
                    let p = ptrs@[n] as int;
                    let hdr = crate::bytes_abi::spec_header_len(prev, p);
                    lemma_batch_total_take_succ(all, n);
                    lemma_batch_total_take_mono(all, n + 1, i as int);
                    lemma_batch_total_nonneg(all.take(n));
                    assert(p + 4 + hdr <= ptr as int);
                    lemma_splice_frame(prev, ptr as int, image@, p, p + 4);
                    lemma_splice_frame(prev, ptr as int, image@, p + 4, p + 4 + hdr);
                }
            }
            ptrs.push(ptr);
            off = off + 4 + slices[i].len();
            i += 1;
        }
        proof {
            assert(all.take(all.len() as int) =~= all);
            assert(ptrs@[0] == base + batch_total(all.take(0)));
            assert(all.take(0) =~= Seq::<Vec<u8>>::empty());
        }
        Some((base, ptrs))
    }

    /// Follow a "pointer to buffer pointer": read the 32-bit pointer stored
    /// at `ptr_ptr`; a zero pointer yields the empty payload, any other
    /// yields the payload of the record it addresses.  `None` when either
    /// read falls outside the memory.
    pub fn read_bytes_indirect(&self, ptr_ptr: u32) -> (r: Option<Vec<u8>>)
        ensures
            ptr_ptr + 4 > self@.len() ==> r is None,
            ptr_ptr + 4 <= self@.len() ==> {
                let p = spec_out_ptr(self@, ptr_ptr as int);
                &&& p == 0 ==> (r matches Some(b) && b@ == Seq::<u8>::empty())
                &&& p != 0 ==> match r {
                    Some(b) => record_in_bounds(self@, p as int) && b@ == spec_record_payload(
                        self@,
                        p as int,
                    ),
                    None => !record_in_bounds(self@, p as int),
                }
            },
    {
        match self.read_u32_at(ptr_ptr) {
            None => None,
            Some(p) => {
                if p == 0 {
                    Some(Vec::new())
                } else {
                    self.read_bytes(p)
                }
            },
        }
    }
}

} // verus!
