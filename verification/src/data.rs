//! Data generators: sources that pull events themselves rather than
//! waiting for a webhook, and the wheel that holds messages a module has
//! scheduled for the future.

use vstd::prelude::*;

use crate::messages::Message;

verus! {

/// Settings for the audit-log poller of the source-forge provider.
pub struct GithubDataConfig {
    /// The token the poller authenticates with.
    pub token: String,
}

/// Settings for the audit-log poller of the identity provider.
pub struct OktaDataConfig {
    /// The token the poller authenticates with.
    pub token: String,
}

/// Settings for the internal source, which relays module-emitted and
/// delayed messages; it has none.
pub struct InternalConfig {
}

/// Settings for the interval timer source; it has none beyond being
/// enabled.
pub struct IntervalConfig {
}

/// Which data generators run; an absent entry disables that source.
pub struct DataConfig {
    /// The source-forge audit-log poller.
    pub github: Option<GithubDataConfig>,
    /// The identity-provider system-log poller.
    pub okta: Option<OktaDataConfig>,
    /// The internal relay for module-emitted messages.
    pub internal: Option<InternalConfig>,
    /// The interval timer.
    pub interval: Option<IntervalConfig>,
}

/// The data-collection subsystem; its polling tasks run in the host
/// shell, outside the engine.
pub struct Data {
}

/// What can go wrong starting the data generators.
#[derive(Debug)]
pub enum DataError {
    StorageError(crate::storage::StorageError),
}

/// A message scheduled to fire in the future, no earlier than its
/// not-before time.
pub struct DelayedMessage {
    /// Seconds since the epoch before which the message must not fire.
    pub not_before: u64,
    /// The message to deliver.
    pub message: Message,
}

/// The messages of `s` whose not-before time has passed by `now`, in
/// their stored order.
pub open spec fn spec_matured(s: Seq<DelayedMessage>, now: u64) -> Seq<Message>
    decreases s.len(),
{
    if s.len() == 0 {
        Seq::<Message>::empty()
    } else {
        let rest = spec_matured(s.drop_first(), now);
        if s[0].not_before <= now {
            seq![s[0].message] + rest
        } else {
            rest
        }
    }
}

/// The entries of `s` still waiting after `now`, in their stored order.
pub open spec fn spec_pending(s: Seq<DelayedMessage>, now: u64) -> Seq<DelayedMessage>
    decreases s.len(),
{
    if s.len() == 0 {
        Seq::<DelayedMessage>::empty()
    } else {
        let rest = spec_pending(s.drop_first(), now);
        if s[0].not_before <= now {
            rest
        } else {
            seq![s[0]] + rest
        }
    }
}

/// The wheel of delayed messages: entries wait until their not-before
/// time, then are released to the event bus.
pub struct DelayedMessageWheel {
    /// The waiting entries, in the order they were scheduled.
    pub entries: Vec<DelayedMessage>,
}

impl DelayedMessageWheel {
    pub fn new() -> (r: Self)
        ensures
            r.entries@ == Seq::<DelayedMessage>::empty(),
    {
        DelayedMessageWheel { entries: Vec::new() }
    }

    /// Accepts a message for future delivery.
    pub fn schedule(&mut self, m: DelayedMessage)
        ensures
            final(self).entries@ == old(self).entries@.push(m),
    {
        self.entries.push(m);
    }

    /// The earliest not-before time among the waiting entries: when the
    /// timer task must wake next.
    pub fn next_deadline(&self) -> (r: Option<u64>)
        ensures
            (match r {
                Some(t) => {
                    &&& exists|i: int|
                        0 <= i < self.entries@.len() && (#[trigger] self.entries@[i]).not_before
                            == t
                    &&& forall|i: int|
                        0 <= i < self.entries@.len() ==> (
                        #[trigger] self.entries@[i]).not_before >= t
                },
                None => self.entries@.len() == 0,
            }),
    {
        if self.entries.len() == 0 {
            return None;
        }
        let mut best: u64 = self.entries[0].not_before;
        let mut i: usize = 1;
        while i < self.entries.len()
            invariant
                1 <= i <= self.entries@.len(),
                self.entries@.len() > 0,
                exists|j: int|
                    0 <= j < i && (#[trigger] self.entries@[j]).not_before == best,
                forall|j: int| 0 <= j < i ==> (#[trigger] self.entries@[j]).not_before >= best,
            decreases self.entries@.len() - i,
        {
            if self.entries[i].not_before < best {
                best = self.entries[i].not_before;
            }
            i += 1;
        }
        Some(best)
    }

    /// Releases every entry whose not-before time has passed, in stored
    /// order; the rest keep waiting in their order.
    pub fn release_matured(&mut self, now: u64) -> (r: Vec<Message>)
        ensures
            r@ == spec_matured(old(self).entries@, now),
            final(self).entries@ == spec_pending(old(self).entries@, now),
    {
        let mut fired: Vec<Message> = Vec::new();
        let mut kept: Vec<DelayedMessage> = Vec::new();
        proof {
            assert(Seq::<Message>::empty() + spec_matured(old(self).entries@, now)
                =~= spec_matured(old(self).entries@, now));
            assert(Seq::<DelayedMessage>::empty() + spec_pending(old(self).entries@, now)
                =~= spec_pending(old(self).entries@, now));
        }
        while self.entries.len() > 0
            invariant
                spec_matured(old(self).entries@, now) =~= fired@ + spec_matured(
                    self.entries@,
                    now,
                ),
                spec_pending(old(self).entries@, now) =~= kept@ + spec_pending(
                    self.entries@,
                    now,
                ),
            decreases self.entries@.len(),
        {
            let ghost before = self.entries@;
            let e = self.entries.remove(0);
            proof {
                assert(before[0] == e);
                assert(self.entries@ =~= before.drop_first());
            }
            if e.not_before <= now {
                proof {
                    assert(spec_matured(before, now) =~= seq![before[0].message] + spec_matured(
                        self.entries@,
                        now,
                    ));
                    assert(spec_pending(before, now) =~= spec_pending(self.entries@, now));
                }
                fired.push(e.message);
                proof {
                    assert(fired@.drop_last() + (seq![before[0].message] + spec_matured(
                        self.entries@,
                        now,
                    )) =~= fired@ + spec_matured(self.entries@, now));
                }
            } else {
                proof {
                    assert(spec_pending(before, now) =~= seq![before[0]] + spec_pending(
                        self.entries@,
                        now,
                    ));
                    assert(spec_matured(before, now) =~= spec_matured(self.entries@, now));
                }
                kept.push(e);
                proof {
                    assert(kept@.drop_last() + (seq![before[0]] + spec_pending(
                        self.entries@,
                        now,
                    )) =~= kept@ + spec_pending(self.entries@, now));
                }
            }
        }
        proof {
            assert(fired@ + spec_matured(self.entries@, now) =~= fired@);
            assert(kept@ + spec_pending(self.entries@, now) =~= kept@);
        }
        self.entries = kept;
        fired
    }
}

} // verus!
