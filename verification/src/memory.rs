//! Memory accounting: reservations growing and shrinking against a bounded
//! pool. A grow that would exceed the pool's remaining capacity fails
//! atomically, with no change to any counter.

use vstd::prelude::*;
use crate::error::ExecError;

verus! {

/// A bounded pool of memory that reservations are accounted against. The pool
/// is owned by the query execution context and threaded explicitly to every
/// operator.
#[derive(Debug)]
pub struct MemoryPool {
    /// The byte budget the pool was created with.
    pub budget: usize,
    /// The bytes currently reserved, over all reservations.
    pub reserved: usize,
}

impl MemoryPool {
    /// Well-formedness: the pool never hands out more than its budget.
    pub open spec fn wf(&self) -> bool {
        self.reserved <= self.budget
    }

    /// Creates a pool with the given byte budget and nothing reserved.
    pub fn new(budget: usize) -> (p: MemoryPool)
        ensures
            p.budget == budget,
            p.reserved == 0,
            p.wf(),
    {
        MemoryPool { budget, reserved: 0 }
    }
}

/// An accounting token owned by one execution context: the bytes this
/// consumer holds out of a pool.
#[derive(Debug)]
pub struct MemoryReservation {
    /// The name of the consumer, used in error messages.
    pub consumer: String,
    /// The bytes this reservation currently holds.
    pub size: usize,
}

impl MemoryReservation {
    /// Consistency with the pool the reservation is accounted against: it
    /// never holds more than the pool has reserved in total.
    pub open spec fn wf_with(&self, pool: MemoryPool) -> bool {
        &&& pool.wf()
        &&& self.size <= pool.reserved
    }

    /// Registers a new, empty reservation for the named consumer.
    pub fn new(consumer: &str) -> (r: MemoryReservation)
        ensures
            r.consumer@ == consumer@,
            r.size == 0,
    {
        MemoryReservation { consumer: consumer.to_owned(), size: 0 }
    }

    /// Tries to grow the reservation by `additional` bytes. Succeeds, and
    /// accounts the bytes in both counters, exactly when the pool's remaining
    /// capacity covers the request; fails with a resources-exhausted error and
    /// no change to any counter otherwise.
    pub fn try_grow(&mut self, pool: &mut MemoryPool, additional: usize) -> (r: Result<
        (),
        ExecError,
    >)
        requires
            old(self).wf_with(*old(pool)),
        ensures
            final(self).wf_with(*final(pool)),
            final(self).consumer@ == old(self).consumer@,
            final(pool).budget == old(pool).budget,
            old(pool).reserved + additional <= old(pool).budget ==> {
                &&& r is Ok
                &&& final(pool).reserved == old(pool).reserved + additional
                &&& final(self).size == old(self).size + additional
            },
            old(pool).reserved + additional > old(pool).budget ==> {
                &&& r matches Err(e) && e is ResourcesExhausted
                &&& *final(pool) == *old(pool)
                &&& *final(self) == *old(self)
            },
    {
        if additional <= pool.budget - pool.reserved {
            pool.reserved = pool.reserved + additional;
            self.size = self.size + additional;
            Ok(())
        } else {
            Err(
                ExecError::ResourcesExhausted(
                    "Failed to allocate additional bytes for ".to_owned().concat(
                        self.consumer.as_str(),
                    ),
                ),
            )
        }
    }

    /// Returns `n` bytes to the pool. Shrinking below zero would be a
    /// programming error, so the bytes must be held by this reservation.
    pub fn shrink(&mut self, pool: &mut MemoryPool, n: usize)
        requires
            old(self).wf_with(*old(pool)),
            n <= old(self).size,
        ensures
            final(self).wf_with(*final(pool)),
            final(self).consumer@ == old(self).consumer@,
            final(pool).budget == old(pool).budget,
            final(pool).reserved == old(pool).reserved - n,
            final(self).size == old(self).size - n,
    {
        pool.reserved = pool.reserved - n;
        self.size = self.size - n;
    }

    /// Returns everything this reservation holds to the pool.
    pub fn free(&mut self, pool: &mut MemoryPool)
        requires
            old(self).wf_with(*old(pool)),
        ensures
            final(self).wf_with(*final(pool)),
            final(self).consumer@ == old(self).consumer@,
            final(pool).budget == old(pool).budget,
            final(pool).reserved == old(pool).reserved - old(self).size,
            final(self).size == 0,
    {
        let n = self.size;
        self.shrink(pool, n);
    }
}

/// The reserved counter after a sequence of grow attempts against a pool with
/// the given budget: each grow is accounted exactly when it still fits.
pub open spec fn spec_reserved_after(budget: int, start: int, grows: Seq<int>) -> int
    decreases grows.len(),
{
    if grows.len() == 0 {
        start
    } else {
        let prev = spec_reserved_after(budget, start, grows.drop_last());
        if prev + grows.last() <= budget {
            prev + grows.last()
        } else {
            prev
        }
    }
}

/// The sum of a sequence of grow amounts.
pub open spec fn spec_sum(grows: Seq<int>) -> int
    decreases grows.len(),
{
    if grows.len() == 0 {
        0
    } else {
        spec_sum(grows.drop_last()) + grows.last()
    }
}

/// While every prefix still fits in the budget, every grow is accounted: the
/// counter equals the start plus the sum of the grows.
pub proof fn lemma_grows_within_budget(budget: int, start: int, grows: Seq<int>)
    requires
        forall|k: int| 0 <= k < grows.len() ==> #[trigger] grows[k] >= 0,
        start + spec_sum(grows) <= budget,
    ensures
        spec_reserved_after(budget, start, grows) == start + spec_sum(grows),
    decreases grows.len(),
{
    if grows.len() > 0 {
        assert(forall|k: int|
            0 <= k < grows.drop_last().len() ==> #[trigger] grows.drop_last()[k] >= 0);
        assert(grows.last() >= 0);
        lemma_grows_within_budget(budget, start, grows.drop_last());
    }
}

/// A sequence of grows that would cumulatively exceed the budget fails exactly
/// at the grow that crosses the boundary: that call has no effect on the
/// counter, and all prior grows remain accounted.
pub proof fn lemma_grow_boundary(budget: int, start: int, grows: Seq<int>, k: int)
    requires
        forall|i: int| 0 <= i < grows.len() ==> #[trigger] grows[i] >= 0,
        0 <= k < grows.len(),
        start + spec_sum(grows.take(k)) <= budget,
        start + spec_sum(grows.take(k + 1)) > budget,
    ensures
        spec_reserved_after(budget, start, grows.take(k)) == start + spec_sum(grows.take(k)),
        spec_reserved_after(budget, start, grows.take(k + 1)) == start + spec_sum(grows.take(k)),
{
    assert(forall|i: int| 0 <= i < grows.take(k).len() ==> #[trigger] grows.take(k)[i] >= 0);
    lemma_grows_within_budget(budget, start, grows.take(k));
    assert(grows.take(k + 1).drop_last() =~= grows.take(k));
    assert(grows.take(k + 1).last() == grows[k]);
    assert(spec_sum(grows.take(k + 1)) == spec_sum(grows.take(k)) + grows[k]);
}

} // verus!
