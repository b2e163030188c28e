//! The per-invocation sandbox metering model: computation fuel and memory
//! pages.  A fresh instance is created per event and destroyed when the
//! invocation returns or traps; the host shell runs the guest code and
//! feeds its costs through this model.

use vstd::prelude::*;

use crate::config::ModuleConfig;
use crate::functions::FunctionErrors;

verus! {

/// A host-side fatal condition: the instance is killed and discarded, and
/// the triggering event is not retried.
#[derive(Debug, Clone, Copy, PartialEq, Eq, Structural)]
pub enum Trap {
    /// The invocation ran out of computation fuel.
    ComputationExhausted,
    /// The guest tried to grow past its memory page limit.
    MemoryExhausted,
    /// The wall-clock deadline elapsed.
    WallClockElapsed,
}

/// The sum of a sequence of per-step fuel costs.
pub open spec fn spec_cost_sum(costs: Seq<u64>) -> int
    decreases costs.len(),
{
    if costs.len() == 0 {
        0
    } else {
        spec_cost_sum(costs.drop_first()) + costs[0]
    }
}

/// One invocation's metered state: fuel consumed so far against the
/// module's fuel limit, and memory pages held against its page limit.
pub struct MeteredInstance {
    /// The module's computation limit for one invocation.
    pub fuel_limit: u64,
    /// Fuel consumed so far; never above the limit.
    pub fuel_consumed: u64,
    /// The module's memory page limit.
    pub page_limit: u32,
    /// Pages currently held; never above the limit.
    pub pages: u32,
}

impl MeteredInstance {
    /// Consumption never passes either configured limit.
    pub open spec fn wf(self) -> bool {
        &&& self.fuel_consumed <= self.fuel_limit
        &&& self.pages <= self.page_limit
    }

    /// A fresh instance for one invocation of the module: full fuel, and
    /// the guest's initial pages, which must fit the limit to load at all.
    pub fn new(module: &ModuleConfig, initial_pages: u32) -> (r: Self)
        requires
            initial_pages <= module.memory_limit_pages,
        ensures
            r.wf(),
            r.fuel_limit == module.fuel_limit,
            r.fuel_consumed == 0,
            r.page_limit == module.memory_limit_pages,
            r.pages == initial_pages,
    {
        MeteredInstance {
            fuel_limit: module.fuel_limit,
            fuel_consumed: 0,
            page_limit: module.memory_limit_pages,
            pages: initial_pages,
        }
    }

    /// The fuel the invocation has used; what the executor reports to the
    /// benchmark sink.
    pub fn fuel_used(&self) -> (r: u64)
        ensures
            r == self.fuel_consumed,
    {
        self.fuel_consumed
    }

    /// Meters one step of guest computation.  The step happens only when
    /// its whole cost fits in the remaining fuel; otherwise the instance
    /// traps with `ComputationExhausted` and no fuel is charged, so
    /// consumption never passes the limit.
    pub fn consume_fuel(&mut self, cost: u64) -> (r: Result<(), Trap>)
        requires
            old(self).wf(),
        ensures
            final(self).wf(),
            final(self).fuel_limit == old(self).fuel_limit,
            final(self).page_limit == old(self).page_limit,
            final(self).pages == old(self).pages,
            r.is_ok() <==> old(self).fuel_consumed + cost <= old(self).fuel_limit,
            r.is_ok() ==> final(self).fuel_consumed == old(self).fuel_consumed + cost,
            r.is_err() ==> r == Err::<(), Trap>(Trap::ComputationExhausted) && *final(self)
                == *old(self),
    {
        if cost <= self.fuel_limit - self.fuel_consumed {
            self.fuel_consumed = self.fuel_consumed + cost;
            Ok(())
        } else {
            Err(Trap::ComputationExhausted)
        }
    }

    /// Runs a whole stretch of guest computation, one step cost at a
    /// time.  It completes exactly when the total cost fits the limit;
    /// otherwise it traps at the first step that would pass the limit —
    /// there is no partial completion with a return value, and consumed
    /// fuel stays within the limit either way.
    pub fn run_steps(&mut self, costs: &Vec<u64>) -> (r: Result<(), Trap>)
        requires
            old(self).wf(),
        ensures
            final(self).wf(),
            final(self).fuel_limit == old(self).fuel_limit,
            final(self).fuel_consumed <= final(self).fuel_limit,
            r.is_ok() <==> old(self).fuel_consumed + spec_cost_sum(costs@) <= old(
                self,
            ).fuel_limit,
            r.is_ok() ==> final(self).fuel_consumed == old(self).fuel_consumed + spec_cost_sum(
                costs@,
            ),
            r.is_err() ==> r == Err::<(), Trap>(Trap::ComputationExhausted),
    {
        let mut i: usize = 0;
        proof {
            assert(costs@.skip(0) =~= costs@);
        }
        while i < costs.len()
            invariant
                old(self).wf(),
                self.wf(),
                i <= costs@.len(),
                self.fuel_limit == old(self).fuel_limit,
                self.fuel_consumed + spec_cost_sum(costs@.skip(i as int)) == old(
                    self,
                ).fuel_consumed + spec_cost_sum(costs@),
                self.fuel_consumed >= old(self).fuel_consumed,
            decreases costs@.len() - i,
        {
            proof {
                assert(costs@.skip(i as int)[0] == costs@[i as int]);
                assert(costs@.skip(i as int).drop_first() =~= costs@.skip(i + 1));
                assert(spec_cost_sum(costs@.skip(i as int)) == costs@[i as int] + spec_cost_sum(
                    costs@.skip(i + 1),
                ));
                lemma_cost_sum_nonneg(costs@.skip(i + 1));
            }
            match self.consume_fuel(costs[i]) {
                Ok(()) => {
                },
                Err(t) => {
                    return Err(t);
                },
            }
            i += 1;
        }
        proof {
            assert(costs@.skip(costs@.len() as int) =~= Seq::<u64>::empty());
        }
        Ok(())
    }

    /// The guest allocator's growth path.  A request that fits below the
    /// page limit grows the instance and returns the new page count; one
    /// past the limit returns the non-success `CouldNotGetAdequateMemory`
    /// code and grows nothing — native memory is untouched.
    pub fn try_grow_pages(&mut self, delta: u32) -> (r: Result<u32, FunctionErrors>)
        requires
            old(self).wf(),
        ensures
            final(self).wf(),
            final(self).fuel_limit == old(self).fuel_limit,
            final(self).fuel_consumed == old(self).fuel_consumed,
            final(self).page_limit == old(self).page_limit,
            r.is_ok() <==> old(self).pages + delta <= old(self).page_limit,
            r.is_ok() ==> final(self).pages == old(self).pages + delta && r == Ok::<
                _,
                FunctionErrors,
            >(final(self).pages),
            r.is_err() ==> r == Err::<u32, _>(FunctionErrors::CouldNotGetAdequateMemory)
                && *final(self) == *old(self),
    {
        if delta <= self.page_limit - self.pages {
            self.pages = self.pages + delta;
            Ok(self.pages)
        } else {
            Err(FunctionErrors::CouldNotGetAdequateMemory)
        }
    }
}

impl MeteredInstance {
    /// What the executor reports to the benchmark sink when the
    /// invocation ends: the module, the elapsed wall-clock time, and the
    /// fuel this instance consumed — by `wf`, within the module's limit.
    pub fn performance_record(&self, module: String, elapsed_micros: u128) -> (r:
        crate::benchmark::ModulePerformanceMetadata)
        ensures
            r.module == module,
            r.execution_time == elapsed_micros,
            r.computation_used == self.fuel_consumed,
    {
        crate::benchmark::ModulePerformanceMetadata {
            module,
            execution_time: elapsed_micros,
            computation_used: self.fuel_consumed,
        }
    }
}

/// The wall-clock ceiling: an invocation past its deadline is killed by
/// trap injection.
pub fn check_deadline(now_micros: u128, deadline_micros: u128) -> (r: Result<(), Trap>)
    ensures
        r.is_ok() <==> now_micros <= deadline_micros,
        r.is_err() ==> r == Err::<(), Trap>(Trap::WallClockElapsed),
{
    if now_micros <= deadline_micros {
        Ok(())
    } else {
        Err(Trap::WallClockElapsed)
    }
}

/// Step costs are never negative, so a completed prefix never consumes
/// more than the whole run would.
pub proof fn lemma_cost_sum_nonneg(costs: Seq<u64>)
    ensures
        spec_cost_sum(costs) >= 0,
    decreases costs.len(),
{
    if costs.len() > 0 {
        lemma_cost_sum_nonneg(costs.drop_first());
    }
}

} // verus!
