//! The host reactor joined to the guest it drives, with the engine and the
//! embedding object model abstracted away: each method stages its string
//! arguments as byte-buffer records inside the guest memory through one
//! batch allocation, the guest side reads them back out of that memory and
//! runs the registry primitive, out-pointer cells carry error buffers back,
//! and the staging block is released.  The contracts say what each call
//! does in terms of the strings the embedder passed — the marshalling in
//! between loses nothing.
//!
//! What is not here: the engine that loads and instantiates the guest
//! module, the thread latch around the entry points (its semantics stand in
//! `gate`), and the interpreter that `exec` runs — `pybox_exec_resolve`
//! holds everything `exec` decides before entering it.

use crate::guest_mem::{
    batch_total, lemma_batch_total_push, lemma_splice_frame, lemma_splice_window, GuestMem,
};
use crate::protected::ProtectedMap;
use crate::registry::{env_dict, utf8_decode, Registry};
use vstd::bytes::{lemma_auto_spec_u32_to_from_le_bytes, spec_u32_to_le_bytes};
use vstd::prelude::*;
use vstd::slice::slice_to_vec;
use vstd::string::{StringExecFns, StringSliceAdditionalSpecFns};
use vstd::utf8::{decode_utf8, encode_utf8, valid_utf8};

verus! {

broadcast use vstd::utf8::encode_utf8_valid_utf8, vstd::utf8::encode_utf8_decode_utf8;

/// The message the guest reports when a call names an environment that
/// does not exist.
pub open spec fn not_found_text(id: Seq<char>) -> Seq<char> {
    "Local context '"@ + id + "' not found"@
}

/// The host reactor with its guest: the guest's linear memory and the
/// registry of environments living behind it.
pub struct PyBoxReactor {
    mem: GuestMem,
    state: Registry,
}

impl PyBoxReactor {
    /// The environments the guest holds.
    pub closed spec fn envs(&self) -> Map<Seq<char>, ProtectedMap<String>> {
        self.state@
    }

    /// Bytes of guest heap still unallocated.
    pub closed spec fn heap_free(&self) -> int {
        self.mem@.len() - self.mem.spec_brk()
    }

    /// Memory and registry are each well formed.
    pub closed spec fn wf(&self) -> bool {
        self.mem.wf() && self.state.wf()
    }

    /// A reactor over a fresh guest memory of `mem_size` bytes, with no
    /// environments.
    pub fn new(mem_size: usize) -> (r: PyBoxReactor)
        requires
            crate::guest_mem::HEAP_BASE <= mem_size <= u32::MAX,
        ensures
            r.wf(),
            r.envs() == Map::<Seq<char>, ProtectedMap<String>>::empty(),
            r.heap_free() == mem_size - crate::guest_mem::HEAP_BASE,
    {
        PyBoxReactor { mem: GuestMem::new(mem_size), state: Registry::new() }
    }

    /// Bytes of guest heap still unallocated.
    pub fn heap_left(&self) -> (r: usize)
        requires
            self.wf(),
        ensures
            r == self.heap_free(),
    {
        self.mem.size() - self.mem.heap_top()
    }

    /// Create a new environment named `env_id`: the identifier crosses the
    /// boundary as one staged record, and the call succeeds exactly when no
    /// environment of that name exists.
    pub fn init_local(&mut self, env_id: &str) -> (r: bool)
        requires
            old(self).wf(),
            4 + env_id.spec_bytes().len() <= old(self).heap_free(),
        ensures
            final(self).wf(),
            r == !old(self).envs().contains_key(env_id@),
            final(self).heap_free() == old(self).heap_free() - (4 + env_id.spec_bytes().len()),
            !r ==> final(self).envs() == old(self).envs(),
            r ==> {
                &&& final(self).envs().contains_key(env_id@)
                &&& final(self).envs()[env_id@]@ == Map::<Seq<char>, String>::empty()
                &&& final(self).envs()[env_id@].protected_keys() == Set::<Seq<char>>::empty()
                &&& final(self).envs()[env_id@].wf()
                &&& final(self).envs().remove(env_id@) == old(self).envs()
            },
    {
        let arg = slice_to_vec(env_id.as_bytes());
        let mut slices: Vec<Vec<u8>> = Vec::new();
        proof {
            lemma_batch_total_push(slices@, arg);
            assert(batch_total(Seq::<Vec<u8>>::empty()) == 0);
        }
        slices.push(arg);
        let (base, ptrs) = self.mem.alloc_batch(&slices).unwrap();
        let got = self.mem.read_bytes(ptrs[0]).unwrap();
        let rc = crate::registry::pybox_init_local(&mut self.state, &got);
        self.mem.free_mem(base);
        proof {
            assert(got@ == encode_utf8(env_id@));
        }
        rc == 0
    }

    /// Delete the environment named `env_id`; succeeds exactly when it
    /// exists, and then removes exactly that environment.
    pub fn del_local(&mut self, env_id: &str) -> (r: bool)
        requires
            old(self).wf(),
            4 + env_id.spec_bytes().len() <= old(self).heap_free(),
        ensures
            final(self).wf(),
            r == old(self).envs().contains_key(env_id@),
            final(self).heap_free() == old(self).heap_free() - (4 + env_id.spec_bytes().len()),
            r ==> final(self).envs() == old(self).envs().remove(env_id@),
            !r ==> final(self).envs() == old(self).envs(),
    {
        let arg = slice_to_vec(env_id.as_bytes());
        let mut slices: Vec<Vec<u8>> = Vec::new();
        proof {
            lemma_batch_total_push(slices@, arg);
            assert(batch_total(Seq::<Vec<u8>>::empty()) == 0);
        }
        slices.push(arg);
        let (base, ptrs) = self.mem.alloc_batch(&slices).unwrap();
        let got = self.mem.read_bytes(ptrs[0]).unwrap();
        let rc = crate::registry::pybox_del_local(&mut self.state, &got);
        self.mem.free_mem(base);
        proof {
            assert(got@ == encode_utf8(env_id@));
        }
        rc == 0
    }

    /// Add `name` to the protected set of environment `env_id`; succeeds
    /// exactly when the environment exists.  The dictionary and every other
    /// environment are untouched, and protecting twice changes nothing.
    pub fn protect(&mut self, env_id: &str, name: &str) -> (r: bool)
        requires
            old(self).wf(),
            8 + env_id.spec_bytes().len() + name.spec_bytes().len() <= old(self).heap_free(),
        ensures
            final(self).wf(),
            r == old(self).envs().contains_key(env_id@),
            final(self).heap_free() == old(self).heap_free() - (8 + env_id.spec_bytes().len()
                + name.spec_bytes().len()),
            !r ==> final(self).envs() == old(self).envs(),
            r ==> {
                &&& final(self).envs().contains_key(env_id@)
                &&& final(self).envs()[env_id@]@ == old(self).envs()[env_id@]@
                &&& final(self).envs()[env_id@].protected_keys() == old(self).envs()[
                    env_id@
                ].protected_keys().insert(name@)
                &&& final(self).envs()[env_id@].wf()
                &&& final(self).envs().remove(env_id@) == old(self).envs().remove(env_id@)
            },
    {
        let arg0 = slice_to_vec(env_id.as_bytes());
        let arg1 = slice_to_vec(name.as_bytes());
        let mut slices: Vec<Vec<u8>> = Vec::new();
        proof {
            lemma_batch_total_push(slices@, arg0);
            lemma_batch_total_push(slices@.push(arg0), arg1);
            assert(batch_total(Seq::<Vec<u8>>::empty()) == 0);
        }
        slices.push(arg0);
        slices.push(arg1);
        let (base, ptrs) = self.mem.alloc_batch(&slices).unwrap();
        let got_id = self.mem.read_bytes(ptrs[0]).unwrap();
        let got_name = self.mem.read_bytes(ptrs[1]).unwrap();
        let rc = crate::registry::pybox_local_protect(&mut self.state, &got_id, &got_name);
        self.mem.free_mem(base);
        proof {
            assert(got_id@ == encode_utf8(env_id@));
            assert(got_name@ == encode_utf8(name@));
        }
        rc == 0
    }

    /// Create environment `env_id` as a copy of `from_env_id`: succeeds
    /// exactly when the target is fresh and the source exists; the new
    /// dictionary equals the source's and its protected set is empty.
    pub fn init_local_from(&mut self, env_id: &str, from_env_id: &str) -> (r: bool)
        requires
            old(self).wf(),
            8 + env_id.spec_bytes().len() + from_env_id.spec_bytes().len() <= old(
                self,
            ).heap_free(),
        ensures
            final(self).wf(),
            r == (!old(self).envs().contains_key(env_id@) && old(self).envs().contains_key(
                from_env_id@,
            )),
            final(self).heap_free() == old(self).heap_free() - (8 + env_id.spec_bytes().len()
                + from_env_id.spec_bytes().len()),
            !r ==> final(self).envs() == old(self).envs(),
            r ==> {
                &&& final(self).envs().contains_key(env_id@)
                &&& final(self).envs()[env_id@]@ == old(self).envs()[from_env_id@]@
                &&& final(self).envs()[env_id@].protected_keys() == Set::<Seq<char>>::empty()
                &&& final(self).envs()[env_id@].wf()
                &&& final(self).envs().remove(env_id@) == old(self).envs()
            },
    {
        let arg0 = slice_to_vec(env_id.as_bytes());
        let arg1 = slice_to_vec(from_env_id.as_bytes());
        let mut slices: Vec<Vec<u8>> = Vec::new();
        proof {
            lemma_batch_total_push(slices@, arg0);
            lemma_batch_total_push(slices@.push(arg0), arg1);
            assert(batch_total(Seq::<Vec<u8>>::empty()) == 0);
        }
        slices.push(arg0);
        slices.push(arg1);
        let (base, ptrs) = self.mem.alloc_batch(&slices).unwrap();
        let got_id = self.mem.read_bytes(ptrs[0]).unwrap();
        let got_from = self.mem.read_bytes(ptrs[1]).unwrap();
        let rc = crate::registry::pybox_init_local_from(&mut self.state, &got_id, &got_from);
        self.mem.free_mem(base);
        proof {
            assert(got_id@ == encode_utf8(env_id@));
            assert(got_from@ == encode_utf8(from_env_id@));
        }
        rc == 0
    }

    /// Inject the JSON document `value_json` under `name` into environment
    /// `env_id`, bypassing protection.  Three staged records carry the
    /// strings; a fourth record's zeroed payload serves as the out-pointer
    /// cell of the error-buffer protocol: on failure the guest allocates a
    /// buffer holding the message, stores its pointer through the cell, and
    /// the host copies the message out and releases the buffer.  When the
    /// guest heap cannot hold the message buffer the cell stays null and
    /// the host reports the generic message.
    pub fn assign(&mut self, env_id: &str, name: &str, value_json: &str) -> (r: Result<
        (),
        String,
    >)
        requires
            old(self).wf(),
            20 + env_id.spec_bytes().len() + name.spec_bytes().len()
                + value_json.spec_bytes().len() <= old(self).heap_free(),
        ensures
            final(self).wf(),
            (r is Ok) <==> old(self).envs().contains_key(env_id@),
            r is Ok ==> {
                &&& final(self).envs().contains_key(env_id@)
                &&& env_dict(final(self).envs()[env_id@]) == env_dict(
                    old(self).envs()[env_id@],
                ).insert(name@, value_json@)
                &&& final(self).envs()[env_id@].protected_keys() == old(self).envs()[
                    env_id@
                ].protected_keys()
                &&& final(self).envs()[env_id@].wf()
                &&& final(self).envs().remove(env_id@) == old(self).envs().remove(env_id@)
            },
            r matches Err(m) ==> {
                &&& final(self).envs() == old(self).envs()
                &&& m@ == ({
                    let nft = not_found_text(env_id@);
                    let args = 20 + env_id.spec_bytes().len() + name.spec_bytes().len()
                        + value_json.spec_bytes().len();
                    if encode_utf8(nft).len() + 4 <= u32::MAX && old(self).heap_free() - args >= 4
                        + encode_utf8(nft).len() {
                        nft
                    } else {
                        "Unknown error"@
                    }
                })
            },
    {
        let arg0 = slice_to_vec(env_id.as_bytes());
        let arg1 = slice_to_vec(name.as_bytes());
        let arg2 = slice_to_vec(value_json.as_bytes());
        let cell = vec![0u8; 4];
        let mut slices: Vec<Vec<u8>> = Vec::new();
        proof {
            lemma_batch_total_push(slices@, arg0);
            lemma_batch_total_push(slices@.push(arg0), arg1);
            lemma_batch_total_push(slices@.push(arg0).push(arg1), arg2);
            lemma_batch_total_push(slices@.push(arg0).push(arg1).push(arg2), cell);
            assert(batch_total(Seq::<Vec<u8>>::empty()) == 0);
        }
        slices.push(arg0);
        slices.push(arg1);
        slices.push(arg2);
        slices.push(cell);
        let (base, ptrs) = self.mem.alloc_batch(&slices).unwrap();
        let got_id = self.mem.read_bytes(ptrs[0]).unwrap();
        let got_name = self.mem.read_bytes(ptrs[1]).unwrap();
        let got_json = self.mem.read_bytes(ptrs[2]).unwrap();
        proof {
            assert(got_id@ == encode_utf8(env_id@));
            assert(got_name@ == encode_utf8(name@));
            assert(got_json@ == encode_utf8(value_json@));
        }
        // The out-pointer cell: the zeroed payload of the fourth record.
        let cell_ptr = ptrs[3] + 4;
        proof {
            lemma_auto_spec_u32_to_from_le_bytes();
        }
        let ghost m_cell = self.mem@;
        self.mem.write_u32_at(cell_ptr, 0);
        proof {
            lemma_splice_window(m_cell, cell_ptr as int, spec_u32_to_le_bytes(0u32));
            assert(crate::guest_mem::spec_out_ptr(self.mem@, cell_ptr as int) == 0);
        }

        let rc = crate::registry::pybox_assign(&mut self.state, &got_id, &got_name, &got_json);

        match rc {
            Ok(()) => {
                // The guest left the cell null: the host reads it back as
                // the empty buffer and has nothing to free.
                let _out = self.mem.read_bytes_indirect(cell_ptr).unwrap();
                self.mem.free_mem(base);
                Ok(())
            },
            Err(msg) => {
                let msg_b = slice_to_vec(msg.as_str().as_bytes());
                let eptr = if msg_b.len() <= (u32::MAX - 4) as usize {
                    self.mem.new_bytes(&msg_b)
                } else {
                    0
                };
                let ghost m_with_record = self.mem@;
                if eptr != 0 {
                    self.mem.write_u32_at(cell_ptr, eptr);
                    proof {
                        let le = spec_u32_to_le_bytes(eptr);
                        let hdr = crate::bytes_abi::spec_header_len(m_with_record, eptr as int);
                        lemma_splice_window(m_with_record, cell_ptr as int, le);
                        lemma_splice_frame(
                            m_with_record,
                            cell_ptr as int,
                            le,
                            eptr as int,
                            eptr + 4,
                        );
                        lemma_splice_frame(
                            m_with_record,
                            cell_ptr as int,
                            le,
                            eptr + 4,
                            eptr + 4 + hdr,
                        );
                    }
                }
                let err_bytes = self.mem.read_bytes_indirect(cell_ptr).unwrap();
                if eptr != 0 {
                    self.mem.free_mem(eptr);
                }
                self.mem.free_mem(base);
                proof {
                    assert(err_bytes@ == if eptr != 0 {
                        encode_utf8(msg@)
                    } else {
                        Seq::<u8>::empty()
                    });
                }
                proof {
                    assert(msg@ == not_found_text(env_id@));
                }
                if eptr == 0 {
                    Err(String::from_str("Unknown error"))
                } else {
                    match utf8_decode(&err_bytes) {
                        Some(s) => Err(s.to_owned()),
                        None => Err(String::from_str("Unknown error")),
                    }
                }
            },
        }
    }

    /// What the guest holds under `name` in environment `env_id`: the
    /// observation an `exec` printing the name would surface.
    pub fn value_of(&self, env_id: &str, name: &str) -> (r: Option<String>)
        requires
            self.wf(),
        ensures
            match r {
                Some(v) => self.envs().contains_key(env_id@) && env_dict(
                    self.envs()[env_id@],
                ).contains_key(name@) && v@ == env_dict(self.envs()[env_id@])[name@],
                None => !(self.envs().contains_key(env_id@) && env_dict(
                    self.envs()[env_id@],
                ).contains_key(name@)),
            },
    {
        let id_b = slice_to_vec(env_id.as_bytes());
        let name_b = slice_to_vec(name.as_bytes());
        crate::registry::env_value(&self.state, &id_b, &name_b)
    }

    /// Whether `name` is protected in environment `env_id`; `None` when the
    /// environment does not exist.
    pub fn protected_of(&self, env_id: &str, name: &str) -> (r: Option<bool>)
        requires
            self.wf(),
        ensures
            match r {
                Some(b) => self.envs().contains_key(env_id@) && b == self.envs()[
                    env_id@
                ].protected_keys().contains(name@),
                None => !self.envs().contains_key(env_id@),
            },
    {
        let id_b = slice_to_vec(env_id.as_bytes());
        let name_b = slice_to_vec(name.as_bytes());
        crate::registry::env_protected(&self.state, &id_b, &name_b)
    }
}

} // verus!
