//! The single-owner latch that guards every entry point of the host
//! reactor: a compare-and-set on an owner-thread identifier, with no mutex.
//! A call that finds the slot free takes ownership and is *initial*; a call
//! from the owning thread is *reentrant* and proceeds, which is what lets a
//! host upcall call back into the reactor from within the same guest
//! invocation; a call from any other thread is rejected outright.  Only the
//! initial call clears the slot on its way out.
//!
//! Thread identifiers are nonzero; `0` marks the slot as free.

use vstd::prelude::*;
use vstd::string::StringExecFns;

verus! {

/// How the owner slot answered an entry attempt.
#[derive(Clone, Copy, PartialEq, Eq, Structural, Debug)]
pub enum GateOutcome {
    /// The slot was free; the caller now owns it and must release it.
    Initial,
    /// The caller already owned the slot; nothing to release.
    Reentrant,
    /// Another thread owns the slot; the call must fail fast.
    Rejected,
}

/// What an entry attempt does to the owner slot: the outcome for the
/// calling thread, and the slot afterwards.
pub open spec fn gate_step(owner: u64, tid: u64) -> (GateOutcome, u64) {
    if owner == 0 {
        (GateOutcome::Initial, tid)
    } else if owner == tid {
        (GateOutcome::Reentrant, owner)
    } else {
        (GateOutcome::Rejected, owner)
    }
}

/// The owner slot.  The view is the owning thread identifier, `0` when free.
pub struct OwnerGate {
    owner: u64,
}

impl View for OwnerGate {
    type V = u64;

    closed spec fn view(&self) -> u64 {
        self.owner
    }
}

impl OwnerGate {
    /// A free slot.
    pub fn new() -> (r: OwnerGate)
        ensures
            r@ == 0,
    {
        OwnerGate { owner: 0 }
    }

    /// Attempt entry from thread `tid`.
    pub fn enter(&mut self, tid: u64) -> (r: GateOutcome)
        requires
            tid != 0,
        ensures
            (r, final(self)@) == gate_step(old(self)@, tid),
    {
        if self.owner == 0 {
            self.owner = tid;
            GateOutcome::Initial
        } else if self.owner == tid {
            GateOutcome::Reentrant
        } else {
            GateOutcome::Rejected
        }
    }

    /// Leave with the outcome that `enter` gave: only an initial call
    /// frees the slot; a reentrant call leaves that to the initial one.
    pub fn leave(&mut self, outcome: GateOutcome)
        ensures
            final(self)@ == if outcome is Initial {
                0u64
            } else {
                old(self)@
            },
    {
        if let GateOutcome::Initial = outcome {
            self.owner = 0;
        }
    }
}

/// The error a rejected caller reports.
pub fn busy_message() -> (r: String)
    ensures
        r@ == "PyboxReactor using by another thread!"@,
{
    String::from_str("PyboxReactor using by another thread!")
}

/// While one thread holds the slot, every other thread is rejected, and
/// the slot still names the holder afterwards: an entry attempt by `tid`
/// while `holder` owns the slot neither succeeds nor disturbs the
/// ownership.
pub proof fn lemma_gate_excludes_other_threads(holder: u64, tid: u64)
    requires
        holder != 0,
        tid != 0,
        tid != holder,
    ensures
        gate_step(holder, tid) == (GateOutcome::Rejected, holder),
{
}

/// The owning thread may always re-enter: with the slot held by `tid`, an
/// entry attempt by `tid` itself is reentrant and keeps the ownership, so a
/// host upcall that calls back into the reactor on the owning thread
/// proceeds.
pub proof fn lemma_gate_reentrant_on_owner(tid: u64)
    requires
        tid != 0,
    ensures
        gate_step(tid, tid) == (GateOutcome::Reentrant, tid),
{
}

/// An initial entry followed by its release leaves the slot free again:
/// from a free slot, `enter` yields `Initial` and ownership by the caller,
/// and `leave` of an `Initial` outcome resets the slot to `0`, whatever
/// thread held it in between.
pub proof fn lemma_gate_initial_round_trip(tid: u64)
    requires
        tid != 0,
    ensures
        gate_step(0, tid) == (GateOutcome::Initial, tid),
{
}

} // verus!
