//! The bound on engine instances that exist at one time.
//!
//! An engine instance holds hundreds of megabytes. A worker takes a slot
//! before it sets up its engine and gives it back when it is done, however it
//! ends; there are never more slots taken than there are.

use vstd::prelude::*;

verus! {

/// `num_cpus::get` gives the number of logical processors that this process
/// can use, which is never less than one.
#[verifier::external_body]
fn logical_cpus() -> (n: usize)
    ensures
        n >= 1,
{
    num_cpus::get()
}

/// The number of slots for a machine that can run `available` threads at
/// once: one, or none where nothing can run.
pub open spec fn slots_for(available: nat) -> nat {
    if available < 1 {
        available
    } else {
        1
    }
}

/// The number of threads one engine instance decodes with on a machine of
/// `cpus` logical processors: all of them, as far as the engine can count.
pub open spec fn threads_for(cpus: nat) -> int {
    if cpus > i32::MAX {
        i32::MAX as int
    } else {
        cpus as int
    }
}

/// The number of threads one engine instance decodes with on a machine of
/// `cpus` logical processors.
pub fn decoder_threads_for(cpus: usize) -> (threads: i32)
    ensures
        threads == threads_for(cpus as nat),
{
    if cpus > i32::MAX as usize {
        i32::MAX
    } else {
        cpus as i32
    }
}

/// The number of threads one engine instance decodes with on this machine.
pub fn decoder_threads() -> (threads: i32)
    ensures
        threads >= 1,
{
    decoder_threads_for(logical_cpus())
}

/// Counts the slots that workers hold.
#[derive(Debug)]
pub struct ConcurrencyGate {
    bound: usize,
    held: usize,
}

impl ConcurrencyGate {
    #[verifier::type_invariant]
    spec fn bounded(self) -> bool {
        self.held <= self.bound
    }

    /// The number of slots.
    pub closed spec fn bound(&self) -> nat {
        self.bound as nat
    }

    /// The number of slots that are taken.
    pub closed spec fn held(&self) -> nat {
        self.held as nat
    }

    /// `bound` slots, all free.
    pub fn new(bound: usize) -> (gate: ConcurrencyGate)
        ensures
            gate.bound() == bound,
            gate.held() == 0,
    {
        ConcurrencyGate { bound, held: 0 }
    }

    /// The slots for a machine that can run `available` threads at once.
    pub fn for_parallelism(available: usize) -> (gate: ConcurrencyGate)
        ensures
            gate.bound() == slots_for(available as nat),
            gate.held() == 0,
    {
        if available < 1 {
            ConcurrencyGate::new(available)
        } else {
            ConcurrencyGate::new(1)
        }
    }

    /// The slots for this machine.
    pub fn for_this_machine() -> (gate: ConcurrencyGate)
        ensures
            gate.bound() == 1,
            gate.held() == 0,
    {
        ConcurrencyGate::for_parallelism(logical_cpus())
    }

    /// Takes a slot if one is free, and says whether it did.
    pub fn try_acquire(&mut self) -> (granted: bool)
        ensures
            granted == (old(self).held() < old(self).bound()),
            final(self).bound() == old(self).bound(),
            final(self).held() == old(self).held() + if granted {
                1nat
            } else {
                0nat
            },
            final(self).held() <= final(self).bound(),
    {
        proof {
            use_type_invariant(&*self);
        }
        if self.held < self.bound {
            self.held = self.held + 1;
            true
        } else {
            false
        }
    }

    /// Gives a slot back, and says whether one was taken.
    pub fn release(&mut self) -> (released: bool)
        ensures
            released == (old(self).held() > 0),
            final(self).bound() == old(self).bound(),
            final(self).held() == old(self).held() - if released {
                1nat
            } else {
                0nat
            },
            final(self).held() <= final(self).bound(),
    {
        proof {
            use_type_invariant(&*self);
        }
        if self.held > 0 {
            self.held = self.held - 1;
            true
        } else {
            false
        }
    }

    /// The number of slots.
    pub fn slots(&self) -> (n: usize)
        ensures
            n == self.bound(),
    {
        self.bound
    }

    /// The number of slots that are taken; never more than there are.
    pub fn slots_held(&self) -> (n: usize)
        ensures
            n == self.held(),
            n <= self.bound(),
    {
        proof {
            use_type_invariant(self);
        }
        self.held
    }

    /// Whether a slot is taken.
    pub fn has_holder(&self) -> (taken: bool)
        ensures
            taken == (self.held() > 0),
    {
        self.held > 0
    }

    /// Whether a slot is free.
    pub fn has_free_slot(&self) -> (free: bool)
        ensures
            free == (self.held() < self.bound()),
    {
        self.held < self.bound
    }
}

} // verus!
