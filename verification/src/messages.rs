//! Events ("messages"), their sources, and the logback depth budget.
//!
//! A message is an immutable payload delivered on a named logging channel.
//! It carries a budget that bounds how deep a chain of module-emitted
//! events ("logbacks") rooted at it may grow.

use vstd::prelude::*;

use crate::functions::FunctionErrors;

verus! {

/// How many logbacks an event chain may still trigger.
#[derive(Debug, Clone, Copy, PartialEq, Eq, Structural)]
pub enum LogbacksAllowed {
    /// No depth bound: emitted events carry `Unlimited` again.
    Unlimited,
    /// At most `n` more levels of emitted events; `Limited(0)` forbids any
    /// emit.
    Limited(u64),
}

impl Default for LogbacksAllowed {
    /// Events admitted without an explicit budget may trigger no logback.
    fn default() -> (r: Self)
        ensures
            r == LogbacksAllowed::Limited(0u64),
    {
        LogbacksAllowed::Limited(0)
    }
}

/// Where a message came from: an inbound webhook (by its label or address)
/// or an internal source such as a poller, a timer, or an emitting module.
#[derive(Debug, Clone, PartialEq, Eq)]
pub enum LogSource {
    Webhook(String),
    Internal(String),
}

/// An event delivered on a logging channel.
#[derive(Debug, Clone)]
pub struct Message {
    /// The logging channel the message is delivered on; never empty.
    pub type_: String,
    /// The opaque payload handed to each handling module.
    pub data: Vec<u8>,
    /// Forwarded headers and context, as key/value pairs.
    pub accessory_data: Vec<(Vec<u8>, Vec<u8>)>,
    /// Who produced the message.
    pub source: LogSource,
    /// How many further logbacks the chain below this message may trigger.
    pub logbacks_allowed: LogbacksAllowed,
}

impl LogbacksAllowed {
    /// Whether an emit is allowed under this budget: everything but
    /// `Limited(0)` admits one.
    pub open spec fn spec_can_emit(self) -> bool {
        self != LogbacksAllowed::Limited(0u64)
    }

    /// The budget the emitted event carries: one less, with `Unlimited`
    /// propagated unchanged.  Only meaningful when `spec_can_emit` holds.
    pub open spec fn spec_child(self) -> LogbacksAllowed {
        match self {
            LogbacksAllowed::Unlimited => LogbacksAllowed::Unlimited,
            LogbacksAllowed::Limited(n) => LogbacksAllowed::Limited((n - 1) as u64),
        }
    }

    /// Gate an emit under this budget.  `Limited(0)` refuses with the
    /// guest-visible `OperationNotAllowed` error; any other budget yields
    /// the decremented (or preserved `Unlimited`) budget for the new event.
    pub fn try_emit(&self) -> (r: Result<LogbacksAllowed, FunctionErrors>)
        ensures
            self.spec_can_emit() <==> r.is_ok(),
            r.is_ok() ==> r == Ok::<_, FunctionErrors>(self.spec_child()),
            r.is_err() ==> r == Err::<LogbacksAllowed, _>(FunctionErrors::OperationNotAllowed),
    {
        match self {
            LogbacksAllowed::Unlimited => Ok(LogbacksAllowed::Unlimited),
            LogbacksAllowed::Limited(n) => {
                if *n == 0 {
                    Err(FunctionErrors::OperationNotAllowed)
                } else {
                    Ok(LogbacksAllowed::Limited(*n - 1))
                }
            },
        }
    }
}

/// The budget carried at depth `k` of an event chain rooted at budget `b`,
/// assuming every level down to `k` emitted successfully.
pub open spec fn budget_at_depth(b: LogbacksAllowed, k: nat) -> LogbacksAllowed
    decreases k,
{
    if k == 0 {
        b
    } else {
        budget_at_depth(b, (k - 1) as nat).spec_child()
    }
}

/// Budget monotonicity: in a chain rooted at `Limited(n)`, the event at
/// depth `k <= n` carries `Limited(n - k)`; every emit down to depth `n` is
/// admitted, and the event at depth `n` (budget `Limited(0)`) can emit
/// nothing, so the maximum emit depth is exactly `n`.  A chain rooted at
/// `Unlimited` carries `Unlimited` at every depth and is never refused.
pub proof fn lemma_budget_monotonicity(b: LogbacksAllowed, k: nat)
    ensures
        (match b {
            LogbacksAllowed::Limited(n) => {
                &&& k <= n ==> budget_at_depth(b, k) == LogbacksAllowed::Limited((n - k) as u64)
                &&& k < n ==> budget_at_depth(b, k).spec_can_emit()
                &&& k == n ==> !budget_at_depth(b, k).spec_can_emit()
            },
            LogbacksAllowed::Unlimited => budget_at_depth(b, k) == LogbacksAllowed::Unlimited
                && budget_at_depth(b, k).spec_can_emit(),
        }),
    decreases k,
{
    if k > 0 {
        lemma_budget_monotonicity(b, (k - 1) as nat);
    }
}

} // verus!
