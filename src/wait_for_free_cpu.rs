use vstd::prelude::*;

verus! {

/// Relies on num_cpus::get: the number of logical CPUs available to this
/// process, documented to be at least 1.
#[verifier::external_body]
fn available_cpus() -> (r: usize)
    ensures
        r >= 1,
{
    num_cpus::get()
}

/// Slot counters of the concurrency limiter: at most `num_cpus` CPU-heavy
/// executions may hold a slot at once, and `num_cpus` never exceeds the number of
/// processing units `total` of the host.
pub struct WaitForFreeCPU {
    num_cpus: usize,
    num_blocked: usize,
    total: usize,
}

impl WaitForFreeCPU {
    /// The ceiling: how many slots may be in use at once.
    pub closed spec fn ceiling(&self) -> nat {
        self.num_cpus as nat
    }

    /// How many slots are in use.
    pub closed spec fn in_use(&self) -> nat {
        self.num_blocked as nat
    }

    /// The number of processing units of the host.
    pub closed spec fn total_units(&self) -> nat {
        self.total as nat
    }

    /// `in_use <= ceiling <= total_units`.
    pub open spec fn wf(&self) -> bool {
        self.in_use() <= self.ceiling() <= self.total_units()
    }

    /// A limiter for a host with `total` processing units, with the ceiling at
    /// `total` and no slot in use.
    pub fn with_total(total: usize) -> (r: WaitForFreeCPU)
        ensures
            r.wf(),
            r.total_units() == total,
            r.ceiling() == total,
            r.in_use() == 0,
    {
        WaitForFreeCPU { num_cpus: total, num_blocked: 0, total }
    }

    /// A limiter for this host: the ceiling is its number of logical CPUs.
    pub fn new() -> (r: WaitForFreeCPU)
        ensures
            r.wf(),
            r.total_units() >= 1,
            r.ceiling() == r.total_units(),
            r.in_use() == 0,
    {
        Self::with_total(available_cpus())
    }

    /// The current ceiling.
    pub fn ceiling_now(&self) -> (r: usize)
        ensures
            r == self.ceiling(),
    {
        self.num_cpus
    }

    /// The slots in use now.
    pub fn in_use_now(&self) -> (r: usize)
        ensures
            r == self.in_use(),
    {
        self.num_blocked
    }

    /// The processing units of the host.
    pub fn total_now(&self) -> (r: usize)
        ensures
            r == self.total_units(),
    {
        self.total
    }

    /// Takes a slot if one is free; returns whether it did.
    pub fn try_acquire(&mut self) -> (acquired: bool)
        requires
            old(self).wf(),
        ensures
            final(self).wf(),
            acquired == (old(self).in_use() < old(self).ceiling()),
            acquired ==> final(self).in_use() == old(self).in_use() + 1,
            !acquired ==> final(self).in_use() == old(self).in_use(),
            final(self).ceiling() == old(self).ceiling(),
            final(self).total_units() == old(self).total_units(),
    {
        if self.num_blocked < self.num_cpus {
            self.num_blocked = self.num_blocked + 1;
            true
        } else {
            false
        }
    }

    /// Gives back a slot taken by `try_acquire`.
    pub fn release(&mut self)
        requires
            old(self).wf(),
            old(self).in_use() > 0,
        ensures
            final(self).wf(),
            final(self).in_use() == old(self).in_use() - 1,
            final(self).ceiling() == old(self).ceiling(),
            final(self).total_units() == old(self).total_units(),
    {
        self.num_blocked = self.num_blocked - 1;
    }
}

/// Sets the ceiling to `n`, raised to the number of slots in use and lowered to
/// the number of processing units of the host.
pub fn restrict_free_cpus_to(w: &mut WaitForFreeCPU, n: usize)
    requires
        old(w).wf(),
    ensures
        final(w).wf(),
        final(w).ceiling() == vstd::math::min(
            vstd::math::max(n as int, old(w).in_use() as int),
            old(w).total_units() as int,
        ),
        final(w).in_use() == old(w).in_use(),
        final(w).total_units() == old(w).total_units(),
{
    let n = if n < w.num_blocked { w.num_blocked } else { n };
    let n = if n > w.total { w.total } else { n };
    w.num_cpus = n;
}

} // verus!
