//! The host side of the upcall channel: the per-reactor table of registered
//! handlers, keyed by the 32-bit handle sandboxed code names, and the packet
//! traffic a dispatched upcall performs inside guest memory — reading the
//! request region the guest's packet points at, and allocating, filling and
//! publishing the response region for the guest to copy out.
//!
//! The handler itself is an opaque callable owned by the embedder; the
//! dispatcher looks it up here, the embedder invokes it, and the verified
//! code carries its answer back into guest memory.  An unknown handle makes
//! the dispatch fail with status `-1` and touches nothing.

use crate::assoc::{
    assoc_map, lemma_assoc_map_contains, lemma_assoc_map_index, lemma_assoc_map_push,
    lemma_assoc_map_remove, lemma_assoc_map_update, unique_keys,
};
use crate::guest_mem::{lemma_splice_frame, lemma_splice_window, GuestMem};
use crate::packet::{spec_read_packet, IoctlPacket};
use vstd::prelude::*;

verus! {

/// The table of registered upcall handlers.  The view is the map from
/// handle to handler.
pub struct HandlerTable<H> {
    entries: Vec<(u32, H)>,
}

impl<H> View for HandlerTable<H> {
    type V = Map<u32, H>;

    closed spec fn view(&self) -> Map<u32, H> {
        assoc_map(self.entries@)
    }
}

impl<H> HandlerTable<H> {
    /// Handles are unique.
    pub closed spec fn wf(&self) -> bool {
        unique_keys(self.entries@)
    }

    /// An empty table.
    pub fn new() -> (r: HandlerTable<H>)
        ensures
            r.wf(),
            r@ == Map::<u32, H>::empty(),
    {
        HandlerTable { entries: Vec::new() }
    }

    /// Index of the entry for `handle`.
    fn find(&self, handle: u32) -> (r: Option<usize>)
        requires
            self.wf(),
        ensures
            match r {
                Some(i) => i < self.entries@.len() && (self.entries@[i as int]).0 == handle
                    && self@.contains_key(handle) && self@[handle] == (self.entries@[i as int]).1,
                None => !self@.contains_key(handle),
            },
    {
        let mut i: usize = 0;
        while i < self.entries.len()
            invariant
                self.wf(),
                i <= self.entries@.len(),
                forall|n: int| 0 <= n < i ==> (#[trigger] self.entries@[n]).0 != handle,
            decreases self.entries@.len() - i,
        {
            if self.entries[i].0 == handle {
                proof {
                    lemma_assoc_map_index(self.entries@, i as int);
                }
                return Some(i);
            }
            i += 1;
        }
        proof {
            lemma_assoc_map_contains(self.entries@, handle);
        }
        None
    }

    /// Register `handler` under `handle`, replacing any handler already
    /// registered there.
    pub fn register(&mut self, handle: u32, handler: H)
        requires
            old(self).wf(),
        ensures
            final(self).wf(),
            final(self)@ == old(self)@.insert(handle, handler),
    {
        match self.find(handle) {
            Some(i) => {
                proof {
                    lemma_assoc_map_update(self.entries@, i as int, (handle, handler));
                }
                self.entries[i] = (handle, handler);
            },
            None => {
                proof {
                    lemma_assoc_map_push(self.entries@, handle, handler);
                    lemma_assoc_map_contains(self.entries@, handle);
                }
                self.entries.push((handle, handler));
            },
        }
    }

    /// Remove the handler under `handle`; reports whether one was there.
    pub fn unregister(&mut self, handle: u32) -> (r: bool)
        requires
            old(self).wf(),
        ensures
            final(self).wf(),
            r == old(self)@.contains_key(handle),
            final(self)@ == old(self)@.remove(handle),
    {
        match self.find(handle) {
            Some(i) => {
                proof {
                    lemma_assoc_map_remove(self.entries@, i as int);
                }
                self.entries.remove(i);
                true
            },
            None => {
                proof {
                    assert(old(self)@.remove(handle) =~= old(self)@);
                }
                false
            },
        }
    }

    /// The handler registered under `handle`, consulted on every upcall.
    /// `None` — an unknown handle — makes the dispatch return `-1` without
    /// touching the guest.
    pub fn lookup(&self, handle: u32) -> (r: Option<&H>)
        requires
            self.wf(),
        ensures
            match r {
                Some(h) => self@.contains_key(handle) && *h == self@[handle],
                None => !self@.contains_key(handle),
            },
    {
        match self.find(handle) {
            Some(i) => Some(&self.entries[i].1),
            None => None,
        }
    }
}

/// Read the raw byte region a packet stored at `pkt_ptr` points at: the
/// request of an upcall, or the response the guest copies out.  `None` when
/// the packet or its region falls outside the memory.
pub fn read_packet_region(mem: &GuestMem, pkt_ptr: u32) -> (r: Option<Vec<u8>>)
    requires
        mem.wf(),
    ensures
        match r {
            Some(b) => pkt_ptr + 8 <= mem@.len() && {
                let p = spec_read_packet(mem@, pkt_ptr as int);
                p.buf + p.buf_len <= mem@.len() && b@ == mem@.subrange(
                    p.buf as int,
                    p.buf + p.buf_len,
                )
            },
            None => pkt_ptr + 8 > mem@.len() || {
                let p = spec_read_packet(mem@, pkt_ptr as int);
                p.buf + p.buf_len > mem@.len()
            },
        },
{
    match IoctlPacket::read_from_mem(mem, pkt_ptr) {
        None => None,
        Some(p) => mem.read_range(p.buf, p.buf_len),
    }
}

/// Deliver a handler's answer: allocate a raw buffer inside guest memory,
/// copy the response bytes into it, and store the packet addressing it at
/// `resp_ptr`, where the guest awaits it.  Fails, touching nothing, when
/// the guest heap cannot hold the response.
pub fn write_upcall_response(mem: &mut GuestMem, resp_ptr: u32, resp: &Vec<u8>) -> (r: bool)
    requires
        old(mem).wf(),
        resp_ptr + 8 <= old(mem).spec_brk(),
        resp@.len() <= u32::MAX,
    ensures
        final(mem).wf(),
        final(mem)@.len() == old(mem)@.len(),
        r <==> old(mem).spec_brk() + resp@.len() <= old(mem)@.len(),
        !r ==> final(mem)@ == old(mem)@ && final(mem).spec_brk() == old(mem).spec_brk(),
        r ==> {
            let p = spec_read_packet(final(mem)@, resp_ptr as int);
            &&& p.buf == old(mem).spec_brk()
            &&& p.buf_len == resp@.len()
            &&& p.buf + p.buf_len <= final(mem)@.len()
            &&& final(mem)@.subrange(p.buf as int, p.buf + p.buf_len) == resp@
        },
{
    let buf = mem.alloc_mem(resp.len());
    if buf == 0 {
        return false;
    }
    let ghost before_data = mem@;
    mem.write_bytes(buf, resp);
    let ghost after_data = mem@;
    let pkt = IoctlPacket { buf, buf_len: resp.len() as u32 };
    pkt.write_to_mem(mem, resp_ptr);
    proof {
        crate::packet::lemma_packet_bytes_len(pkt);
        lemma_splice_window(before_data, buf as int, resp@);
        lemma_splice_frame(
            after_data,
            resp_ptr as int,
            crate::packet::packet_bytes(pkt),
            buf as int,
            buf + resp@.len(),
        );
    }
    true
}

/// Build the guest side of an upcall inside guest memory: a buffer holding
/// the request data, the request packet addressing it, and a zeroed
/// response packet for the host to fill.  Returns the pointers to the two
/// packets, or `None`, touching nothing, when the guest heap cannot hold
/// them.
pub fn prepare_upcall_packets(mem: &mut GuestMem, data: &Vec<u8>) -> (r: Option<(u32, u32)>)
    requires
        old(mem).wf(),
        data@.len() + 16 <= u32::MAX,
    ensures
        final(mem).wf(),
        final(mem)@.len() == old(mem)@.len(),
        (r is Some) <==> (old(mem).spec_brk() + data@.len() + 16 <= old(mem)@.len()),
        r is None ==> final(mem)@ == old(mem)@ && final(mem).spec_brk() == old(mem).spec_brk(),
        r matches Some((req_ptr, resp_ptr)) ==> {
            let p = spec_read_packet(final(mem)@, req_ptr as int);
            &&& req_ptr + 8 <= final(mem).spec_brk()
            &&& resp_ptr + 8 <= final(mem).spec_brk()
            &&& p.buf_len == data@.len()
            &&& p.buf + p.buf_len <= final(mem)@.len()
            &&& final(mem)@.subrange(p.buf as int, p.buf + p.buf_len) == data@
            &&& spec_read_packet(final(mem)@, resp_ptr as int) == (IoctlPacket {
                buf: 0u32,
                buf_len: 0u32,
            })
            &&& final(mem).spec_brk() == old(mem).spec_brk() + data@.len() + 16
        },
{
    let top = mem.heap_top();
    let size = mem.size();
    if size - top < 16 || data.len() > (size - top) - 16 {
        return None;
    }
    let buf = mem.alloc_mem(data.len());
    let ghost m0 = mem@;
    mem.write_bytes(buf, data);
    let ghost m1 = mem@;
    let req_ptr = mem.alloc_mem(8);
    let req_pkt = IoctlPacket { buf, buf_len: data.len() as u32 };
    req_pkt.write_to_mem(mem, req_ptr);
    let ghost m2 = mem@;
    let resp_ptr = mem.alloc_mem(8);
    let resp_pkt = IoctlPacket { buf: 0, buf_len: 0 };
    resp_pkt.write_to_mem(mem, resp_ptr);
    proof {
        let pb_req = crate::packet::packet_bytes(req_pkt);
        let pb_resp = crate::packet::packet_bytes(resp_pkt);
        crate::packet::lemma_packet_bytes_len(req_pkt);
        crate::packet::lemma_packet_bytes_len(resp_pkt);
        lemma_splice_window(m0, buf as int, data@);
        lemma_splice_frame(m1, req_ptr as int, pb_req, buf as int, buf + data@.len());
        lemma_splice_frame(m2, resp_ptr as int, pb_resp, buf as int, buf + data@.len());
        lemma_splice_frame(m2, resp_ptr as int, pb_resp, req_ptr as int, req_ptr + 4);
        lemma_splice_frame(m2, resp_ptr as int, pb_resp, req_ptr + 4, req_ptr + 8);
    }
    Some((req_ptr, resp_ptr))
}

} // verus!
