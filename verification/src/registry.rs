//! The guest runtime core: a registry of named execution environments, each
//! owning a protected mapping that serves as its locals.  The primitives
//! mirror the guest's exported surface: create an environment, create one as
//! a copy of another, delete one, inject a value through the privileged
//! path, protect a name, and resolve an environment for execution.
//!
//! Arguments arrive as raw bytes, exactly as they cross the guest boundary;
//! every primitive decodes them as UTF-8 first and fails on anything else.
//! Status is `0` for success, `-1` for failure, as across the ABI.
//!
//! The registry models what the host has injected and protected; the values
//! it holds are the JSON documents handed to `pybox_assign`.  Whether such a
//! document parses, and what sandboxed code later does inside its
//! interpreter, is the embedding interpreter's concern and not represented
//! here.

use crate::assoc::{
    assoc_map, lemma_assoc_map_contains, lemma_assoc_map_index, lemma_assoc_map_push,
    lemma_assoc_map_remove, lemma_assoc_map_update, unique_keys,
};
use crate::protected::ProtectedMap;
use vstd::prelude::*;
use vstd::std_specs::vec::vec_index_mut;
use vstd::string::StringExecFns;
use vstd::utf8::{decode_utf8, valid_utf8};

verus! {

/// Relies on core::str::from_utf8: it returns `Ok` exactly on valid UTF-8,
/// and the resulting string slice views those very bytes, so its characters
/// are their decoding.
#[verifier::external_body]
pub(crate) fn utf8_decode<'a>(bytes: &'a Vec<u8>) -> (r: Option<&'a str>)
    ensures
        (r is Some) <==> valid_utf8(bytes@),
        r matches Some(s) ==> s@ == decode_utf8(bytes@),
{
    core::str::from_utf8(bytes.as_slice()).ok()
}

/// An environment's dictionary with both keys and values taken down to
/// character sequences.
pub open spec fn env_dict(e: ProtectedMap<String>) -> Map<Seq<char>, Seq<char>> {
    e@.map_values(|v: String| v@)
}

/// The registry of environments, keyed by their UTF-8 identifiers.  The
/// view is the map from identifier to environment.
pub struct Registry {
    envs: Vec<(String, ProtectedMap<String>)>,
}

impl View for Registry {
    type V = Map<Seq<char>, ProtectedMap<String>>;

    closed spec fn view(&self) -> Map<Seq<char>, ProtectedMap<String>> {
        assoc_map(self.envs@)
    }
}

impl Registry {
    /// Identifiers are unique and every environment is well formed.
    pub closed spec fn wf(&self) -> bool {
        &&& unique_keys(self.envs@)
        &&& forall|i: int|
            0 <= i < self.envs@.len() ==> (#[trigger] self.envs@[i]).1.wf()
    }

    /// An empty registry.
    pub fn new() -> (r: Registry)
        ensures
            r.wf(),
            r@ == Map::<Seq<char>, ProtectedMap<String>>::empty(),
    {
        Registry { envs: Vec::new() }
    }

    /// Index of the environment with the given identifier.
    fn find_env(&self, id: &String) -> (r: Option<usize>)
        requires
            self.wf(),
        ensures
            match r {
                Some(i) => i < self.envs@.len() && (self.envs@[i as int]).0@ == id@
                    && self@.contains_key(id@) && self@[id@] == (self.envs@[i as int]).1,
                None => !self@.contains_key(id@),
            },
    {
        let mut i: usize = 0;
        while i < self.envs.len()
            invariant
                self.wf(),
                i <= self.envs@.len(),
                forall|n: int| 0 <= n < i ==> (#[trigger] self.envs@[n]).0@ != id@,
            decreases self.envs@.len() - i,
        {
            if self.envs[i].0 == *id {
                proof {
                    lemma_assoc_map_index(self.envs@, i as int);
                }
                return Some(i);
            }
            i += 1;
        }
        proof {
            lemma_assoc_map_contains(self.envs@, id@);
        }
        None
    }
}

/// Create a fresh environment under `id`: an empty dictionary with nothing
/// protected.  Fails, leaving the registry as it was, when `id` is not
/// UTF-8 or is already registered.
pub fn pybox_init_local(state: &mut Registry, id: &Vec<u8>) -> (r: i32)
    requires
        old(state).wf(),
    ensures
        final(state).wf(),
        r == 0 || r == -1,
        (r == 0) <==> (valid_utf8(id@) && !old(state)@.contains_key(decode_utf8(id@))),
        r == -1 ==> *final(state) == *old(state),
        r == 0 ==> {
            let idc = decode_utf8(id@);
            &&& final(state)@.contains_key(idc)
            &&& final(state)@[idc]@ == Map::<Seq<char>, String>::empty()
            &&& final(state)@[idc].protected_keys() == Set::<Seq<char>>::empty()
            &&& final(state)@[idc].wf()
            &&& final(state)@.remove(idc) == old(state)@
        },
{
    let id_str = match utf8_decode(id) {
        Some(s) => s,
        None => {
            return -1;
        },
    };
    let owned = id_str.to_owned();
    if let Some(_) = state.find_env(&owned) {
        return -1;
    }
    let fresh = ProtectedMap::<String>::new();
    proof {
        lemma_assoc_map_push(state.envs@, owned, fresh);
        lemma_assoc_map_contains(state.envs@, id_str@);
    }
    state.envs.push((owned, fresh));
    proof {
        assert(final(state)@.remove(id_str@) =~= old(state)@);
    }
    0
}

/// Create environment `id` as a copy of environment `from_id`: the new
/// dictionary equals the source's, and nothing is protected in it — the
/// caller decides which names to protect again.  Fails, leaving the
/// registry as it was, when either identifier is not UTF-8, when `id`
/// already exists, or when `from_id` does not.
pub fn pybox_init_local_from(state: &mut Registry, id: &Vec<u8>, from_id: &Vec<u8>) -> (r: i32)
    requires
        old(state).wf(),
    ensures
        final(state).wf(),
        r == 0 || r == -1,
        (r == 0) <==> (valid_utf8(id@) && valid_utf8(from_id@) && !old(state)@.contains_key(
            decode_utf8(id@),
        ) && old(state)@.contains_key(decode_utf8(from_id@))),
        r == -1 ==> *final(state) == *old(state),
        r == 0 ==> {
            let idc = decode_utf8(id@);
            let src = decode_utf8(from_id@);
            &&& final(state)@.contains_key(idc)
            &&& final(state)@[idc]@ == old(state)@[src]@
            &&& final(state)@[idc].protected_keys() == Set::<Seq<char>>::empty()
            &&& final(state)@[idc].wf()
            &&& final(state)@.remove(idc) == old(state)@
        },
{
    let id_str = match utf8_decode(id) {
        Some(s) => s,
        None => {
            return -1;
        },
    };
    let from_str = match utf8_decode(from_id) {
        Some(s) => s,
        None => {
            return -1;
        },
    };
    let owned = id_str.to_owned();
    let from_owned = from_str.to_owned();
    if let Some(_) = state.find_env(&owned) {
        return -1;
    }
    let src_index = match state.find_env(&from_owned) {
        Some(i) => i,
        None => {
            return -1;
        },
    };
    let copied = state.envs[src_index].1.copy_dict();
    proof {
        lemma_assoc_map_push(state.envs@, owned, copied);
        lemma_assoc_map_contains(state.envs@, id_str@);
    }
    state.envs.push((owned, copied));
    proof {
        assert(final(state)@.remove(id_str@) =~= old(state)@);
    }
    0
}

/// Delete the environment under `id`, dropping its mapping.  Fails, leaving
/// the registry as it was, when `id` is not UTF-8 or is not registered.
pub fn pybox_del_local(state: &mut Registry, id: &Vec<u8>) -> (r: i32)
    requires
        old(state).wf(),
    ensures
        final(state).wf(),
        r == 0 || r == -1,
        (r == 0) <==> (valid_utf8(id@) && old(state)@.contains_key(decode_utf8(id@))),
        r == -1 ==> *final(state) == *old(state),
        r == 0 ==> final(state)@ == old(state)@.remove(decode_utf8(id@)),
{
    let id_str = match utf8_decode(id) {
        Some(s) => s,
        None => {
            return -1;
        },
    };
    let owned = id_str.to_owned();
    let i = match state.find_env(&owned) {
        Some(i) => i,
        None => {
            return -1;
        },
    };
    proof {
        lemma_assoc_map_remove(state.envs@, i as int);
    }
    state.envs.remove(i);
    0
}

/// Add `name` to the protected set of environment `id`.  Idempotent; the
/// dictionary and every other environment are untouched.  Fails, leaving
/// the registry as it was, when an argument is not UTF-8 or the environment
/// does not exist.
pub fn pybox_local_protect(state: &mut Registry, id: &Vec<u8>, name: &Vec<u8>) -> (r: i32)
    requires
        old(state).wf(),
    ensures
        final(state).wf(),
        r == 0 || r == -1,
        (r == 0) <==> (valid_utf8(id@) && valid_utf8(name@) && old(state)@.contains_key(
            decode_utf8(id@),
        )),
        r == -1 ==> *final(state) == *old(state),
        r == 0 ==> {
            let idc = decode_utf8(id@);
            &&& final(state)@.contains_key(idc)
            &&& final(state)@[idc]@ == old(state)@[idc]@
            &&& final(state)@[idc].protected_keys() == old(state)@[idc].protected_keys().insert(
                decode_utf8(name@),
            )
            &&& final(state)@[idc].wf()
            &&& final(state)@.remove(idc) == old(state)@.remove(idc)
        },
{
    let id_str = match utf8_decode(id) {
        Some(s) => s,
        None => {
            return -1;
        },
    };
    let name_str = match utf8_decode(name) {
        Some(s) => s,
        None => {
            return -1;
        },
    };
    let owned = id_str.to_owned();
    let i = match state.find_env(&owned) {
        Some(i) => i,
        None => {
            return -1;
        },
    };
    let ghost entry_key = (state.envs@[i as int]).0;
    let pair = vec_index_mut(&mut state.envs, i);
    pair.1.protect(name_str.to_owned());
    proof {
        lemma_assoc_map_update(old(state).envs@, i as int, *pair);
        assert(final(state)@.remove(entry_key@) =~= old(state)@.remove(entry_key@));
    }
    0
}

/// Inject a value through the privileged path: bind `name` to the JSON
/// document `value` in environment `id`'s dictionary, bypassing the
/// protection check, so the injection succeeds whether or not `name` is
/// protected.  The protected set is untouched.  Fails, with the registry as
/// it was and a message naming the failure, when an argument is not UTF-8
/// or the environment does not exist.
pub fn pybox_assign(state: &mut Registry, id: &Vec<u8>, name: &Vec<u8>, value: &Vec<u8>) -> (r:
    Result<(), String>)
    requires
        old(state).wf(),
    ensures
        final(state).wf(),
        (r is Ok) <==> (valid_utf8(id@) && valid_utf8(name@) && valid_utf8(value@) && old(
            state,
        )@.contains_key(decode_utf8(id@))),
        r is Err ==> *final(state) == *old(state),
        r matches Err(m) ==> m@ == if !(valid_utf8(id@) && valid_utf8(name@) && valid_utf8(
            value@,
        )) {
            "Invalid UTF-8 encoding in id, name or object"@
        } else {
            "Local context '"@ + decode_utf8(id@) + "' not found"@
        },
        r is Ok ==> {
            let idc = decode_utf8(id@);
            let namec = decode_utf8(name@);
            &&& final(state)@.contains_key(idc)
            &&& env_dict(final(state)@[idc]) == env_dict(old(state)@[idc]).insert(
                namec,
                decode_utf8(value@),
            )
            &&& final(state)@[idc].protected_keys() == old(state)@[idc].protected_keys()
            &&& final(state)@[idc].wf()
            &&& final(state)@.remove(idc) == old(state)@.remove(idc)
        },
{
    let decoded = match (utf8_decode(id), utf8_decode(name), utf8_decode(value)) {
        (Some(i), Some(n), Some(v)) => (i, n, v),
        _ => {
            return Err(String::from_str("Invalid UTF-8 encoding in id, name or object"));
        },
    };
    let (id_str, name_str, value_str) = decoded;
    let owned = id_str.to_owned();
    let i = match state.find_env(&owned) {
        Some(i) => i,
        None => {
            return Err(not_found_message(id_str));
        },
    };
    let ghost entry_key = (state.envs@[i as int]).0;
    let ghost old_env = (state.envs@[i as int]).1;
    let pair = vec_index_mut(&mut state.envs, i);
    pair.1.set_privileged(name_str.to_owned(), value_str.to_owned());
    proof {
        lemma_assoc_map_update(old(state).envs@, i as int, *pair);
        assert(final(state)@.remove(entry_key@) =~= old(state)@.remove(entry_key@));
        assert(env_dict(final(state)@[entry_key@]) =~= env_dict(old_env).insert(
            decode_utf8(name@),
            decode_utf8(value@),
        ));
    }
    Ok(())
}

/// Resolve an environment for execution: everything `pybox_exec` checks
/// before it enters the interpreter.  Succeeds exactly when both arguments
/// are UTF-8 and the environment exists; the run itself, and the capture of
/// its output, happen inside the interpreter and leave the registry alone.
pub fn pybox_exec_resolve(state: &Registry, id: &Vec<u8>, code: &Vec<u8>) -> (r: Result<
    (),
    String,
>)
    requires
        state.wf(),
    ensures
        (r is Ok) <==> (valid_utf8(id@) && valid_utf8(code@) && state@.contains_key(
            decode_utf8(id@),
        )),
        r matches Err(m) ==> m@ == if !(valid_utf8(id@) && valid_utf8(code@)) {
            "Invalid UTF-8 encoding in id or code"@
        } else {
            "Local context not found"@
        },
{
    let decoded = match (utf8_decode(id), utf8_decode(code)) {
        (Some(i), Some(c)) => (i, c),
        _ => {
            return Err(String::from_str("Invalid UTF-8 encoding in id or code"));
        },
    };
    let (id_str, _code_str) = decoded;
    let owned = id_str.to_owned();
    match state.find_env(&owned) {
        Some(_) => Ok(()),
        None => Err(String::from_str("Local context not found")),
    }
}

/// Read back what `pybox_assign` bound: the value under `name` in
/// environment `id`, the observation that an `exec` of code printing the
/// name would surface.
pub fn env_value(state: &Registry, id: &Vec<u8>, name: &Vec<u8>) -> (r: Option<String>)
    requires
        state.wf(),
    ensures
        match r {
            Some(v) => valid_utf8(id@) && valid_utf8(name@) && state@.contains_key(
                decode_utf8(id@),
            ) && env_dict(state@[decode_utf8(id@)]).contains_key(decode_utf8(name@)) && v@
                == env_dict(state@[decode_utf8(id@)])[decode_utf8(name@)],
            None => !(valid_utf8(id@) && valid_utf8(name@) && state@.contains_key(
                decode_utf8(id@),
            ) && env_dict(state@[decode_utf8(id@)]).contains_key(decode_utf8(name@))),
        },
{
    let id_str = match utf8_decode(id) {
        Some(s) => s,
        None => {
            return None;
        },
    };
    let name_str = match utf8_decode(name) {
        Some(s) => s,
        None => {
            return None;
        },
    };
    let owned = id_str.to_owned();
    let i = match state.find_env(&owned) {
        Some(i) => i,
        None => {
            return None;
        },
    };
    match state.envs[i].1.get(&name_str.to_owned()) {
        Some(v) => Some(v.clone()),
        None => None,
    }
}

/// Whether `name` is currently protected in environment `id`: the
/// observation that an `exec` of code assigning to the name would make, by
/// either raising or succeeding.
pub fn env_protected(state: &Registry, id: &Vec<u8>, name: &Vec<u8>) -> (r: Option<bool>)
    requires
        state.wf(),
    ensures
        match r {
            Some(b) => valid_utf8(id@) && valid_utf8(name@) && state@.contains_key(
                decode_utf8(id@),
            ) && b == state@[decode_utf8(id@)].protected_keys().contains(decode_utf8(name@)),
            None => !(valid_utf8(id@) && valid_utf8(name@) && state@.contains_key(
                decode_utf8(id@),
            )),
        },
{
    let id_str = match utf8_decode(id) {
        Some(s) => s,
        None => {
            return None;
        },
    };
    let name_str = match utf8_decode(name) {
        Some(s) => s,
        None => {
            return None;
        },
    };
    let owned = id_str.to_owned();
    let i = match state.find_env(&owned) {
        Some(i) => i,
        None => {
            return None;
        },
    };
    Some(state.envs[i].1.is_protected(&name_str.to_owned()))
}

/// The error message `pybox_assign` reports for an unknown environment.
fn not_found_message(id: &str) -> (r: String)
    ensures
        r@ == "Local context '"@ + id@ + "' not found"@,
{
    let mut m = String::from_str("Local context '");
    m.append(id);
    m.append("' not found");
    m
}

/// Creating an environment and then deleting it leaves the registry exactly
/// as it was: `pybox_init_local` ensures the new state is the old map with
/// the fresh environment inserted under an identifier it did not contain,
/// `pybox_del_local` ensures the state after deletion is the map with that
/// identifier removed, and for an identifier that was absent the two cancel.
pub proof fn lemma_init_then_del_restores<T>(m: Map<Seq<char>, T>, id: Seq<char>, env: T)
    requires
        !m.contains_key(id),
    ensures
        m.insert(id, env).remove(id) == m,
{
    assert(m.insert(id, env).remove(id) =~= m);
}

/// The names removed from the interpreter's builtins when an environment is
/// created, in the order they are removed.
pub fn removed_builtins() -> (r: Vec<String>)
    ensures
        r@.len() == 4,
        r@[0]@ == "threading"@,
        r@[1]@ == "_thread"@,
        r@[2]@ == "quit"@,
        r@[3]@ == "exit"@,
{
    let mut r: Vec<String> = Vec::new();
    r.push(String::from_str("threading"));
    r.push(String::from_str("_thread"));
    r.push(String::from_str("quit"));
    r.push(String::from_str("exit"));
    r
}

/// The names the runtime injects into the interpreter's builtins when an
/// environment is created: the upcall entry point, the convenience layer on
/// top of it, and the protected mapping type under its well-known name.
pub fn injected_builtins() -> (r: Vec<String>)
    ensures
        r@.len() == 3,
        r@[0]@ == "pybox_ioctl_host"@,
        r@[1]@ == "pybox_json_rpc"@,
        r@[2]@ == "ProtectedLocals"@,
{
    let mut r: Vec<String> = Vec::new();
    r.push(String::from_str("pybox_ioctl_host"));
    r.push(String::from_str("pybox_json_rpc"));
    r.push(String::from_str("ProtectedLocals"));
    r
}

} // verus!
