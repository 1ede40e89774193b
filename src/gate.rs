//! The admission gate shared by every subscription: a counting permit pool
//! sized as a fraction of the store's connection pool.
use vstd::prelude::*;

verus! {

/// `ceil(0.7 * pool_size)`, the number of store connections that
/// subscription executions may occupy together.
pub open spec fn gate_capacity_spec(pool_size: nat) -> nat {
    (7 * pool_size + 9) / 10
}

/// Computes `ceil(0.7 * pool_size)` in integer arithmetic, without overflow
/// for any pool size.
pub fn gate_capacity(pool_size: u64) -> (r: u64)
    ensures
        r as nat == gate_capacity_spec(pool_size as nat),
{
    let tens: u64 = pool_size / 10;
    let rest: u64 = pool_size % 10;
    proof {
        let p = pool_size as int;
        let q = tens as int;
        let m = rest as int;
        assert(p == 10 * q + m && 0 <= m < 10);
        assert((7 * p + 9) / 10 == 7 * q + (7 * m + 9) / 10) by (nonlinear_arith)
            requires
                p == 10 * q + m,
                0 <= m < 10,
                0 <= q,
        ;
        assert(7 * q <= 7 * p / 10) by (nonlinear_arith)
            requires
                p == 10 * q + m,
                0 <= m,
                0 <= q,
        ;
    }
    7 * tens + (7 * rest + 9) / 10
}

/// Admission control for executions: at most `capacity` permits are out at
/// any moment.
pub struct AdmissionGate {
    capacity: u64,
    in_use: u64,
}

impl AdmissionGate {
    /// The largest number of permits held at once.
    pub closed spec fn spec_capacity(&self) -> nat {
        self.capacity as nat
    }

    /// The number of permits currently held.
    pub closed spec fn spec_in_use(&self) -> nat {
        self.in_use as nat
    }

    #[verifier::type_invariant]
    spec fn bounded(&self) -> bool {
        self.in_use <= self.capacity
    }

    /// A gate for a store whose connection pool holds `pool_size`
    /// connections, with no permit held.
    pub fn new(pool_size: u64) -> (r: AdmissionGate)
        ensures
            r.spec_capacity() == gate_capacity_spec(pool_size as nat),
            r.spec_in_use() == 0,
    {
        AdmissionGate { capacity: gate_capacity(pool_size), in_use: 0 }
    }

    pub fn capacity(&self) -> (r: u64)
        ensures
            r as nat == self.spec_capacity(),
    {
        self.capacity
    }

    pub fn in_use(&self) -> (r: u64)
        ensures
            r as nat == self.spec_in_use(),
    {
        self.in_use
    }

    /// The number of permits that can still be taken.
    pub fn available(&self) -> (r: u64)
        ensures
            r as nat == self.spec_capacity() - self.spec_in_use(),
    {
        proof {
            use_type_invariant(self);
        }
        self.capacity - self.in_use
    }

    /// Takes one permit if one is free; reports whether it did.
    pub fn try_acquire(&mut self) -> (r: bool)
        ensures
            r == (old(self).spec_in_use() < old(self).spec_capacity()),
            final(self).spec_capacity() == old(self).spec_capacity(),
            final(self).spec_in_use() == acquire_step(old(self).spec_capacity(), old(self).spec_in_use()),
    {
        proof {
            use_type_invariant(&*self);
        }
        if self.in_use < self.capacity {
            self.in_use = self.in_use + 1;
            true
        } else {
            false
        }
    }

    /// Gives back one permit taken earlier by `try_acquire`.
    pub fn release(&mut self)
        requires
            old(self).spec_in_use() > 0,
        ensures
            final(self).spec_capacity() == old(self).spec_capacity(),
            final(self).spec_in_use() == release_step(old(self).spec_in_use()),
    {
        proof {
            use_type_invariant(&*self);
        }
        self.in_use = self.in_use - 1;
    }
}

/// A subscription's request: take a permit, or give one back.
pub enum GateRequest {
    Acquire,
    Release,
}

/// Permits held after a successful or refused attempt to take one.
pub open spec fn acquire_step(capacity: nat, held: nat) -> nat {
    if held < capacity {
        held + 1
    } else {
        held
    }
}

/// Permits held after one is given back.
pub open spec fn release_step(held: nat) -> nat {
    if held > 0 {
        (held - 1) as nat
    } else {
        0
    }
}

/// Permits held by a gate of `capacity` once `requests`, from any number of
/// subscriptions interleaved in any order, have been served in turn.
pub open spec fn held_after(capacity: nat, requests: Seq<GateRequest>) -> nat
    decreases requests.len(),
{
    if requests.len() == 0 {
        0
    } else {
        let held = held_after(capacity, requests.drop_last());
        match requests.last() {
            GateRequest::Acquire => acquire_step(capacity, held),
            GateRequest::Release => release_step(held),
        }
    }
}

/// Whatever requests concurrent subscriptions send, and in whatever
/// order, the permits held never exceed its capacity.
pub proof fn lemma_gate_never_over_capacity(capacity: nat, requests: Seq<GateRequest>)
    ensures
        held_after(capacity, requests) <= capacity,
    decreases requests.len(),
{
    if requests.len() > 0 {
        lemma_gate_never_over_capacity(capacity, requests.drop_last());
    }
}

} // verus!
