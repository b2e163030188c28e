//! The event bus and dispatcher: a bounded FIFO queue of messages, the
//! read-only module registry built at startup, and the fan-out of one
//! message to the modules subscribing to its channel.

use vstd::prelude::*;

use crate::config::{LoaderConfiguration, ModuleConfig};
use crate::messages::Message;
use crate::strutil::{seq_contains_string, vec_contains_string};

verus! {

/// Whether the module handles events on channel `c`.
pub open spec fn module_subscribes(m: ModuleConfig, c: Seq<char>) -> bool {
    seq_contains_string(m.channels@, c)
}

/// The names of the modules subscribing to `c`, in registry order.
pub open spec fn spec_subscribers(mods: Seq<ModuleConfig>, c: Seq<char>) -> Seq<Seq<char>>
    decreases mods.len(),
{
    if mods.len() == 0 {
        Seq::<Seq<char>>::empty()
    } else {
        let init = spec_subscribers(mods.drop_last(), c);
        if module_subscribes(mods.last(), c) {
            init.push(mods.last().name@)
        } else {
            init
        }
    }
}

/// No two registered modules share a name.
pub open spec fn unique_module_names(mods: Seq<ModuleConfig>) -> bool {
    forall|i: int, j: int|
        0 <= i < j < mods.len() ==> (#[trigger] mods[i]).name@ != (#[trigger] mods[j]).name@
}

/// Every subscriber name belongs to a subscribing module, and every
/// subscribing module's name is delivered to.
pub proof fn lemma_subscriber_members(mods: Seq<ModuleConfig>, c: Seq<char>)
    ensures
        forall|x: Seq<char>|
            spec_subscribers(mods, c).contains(x) ==> exists|i: int|
                0 <= i < mods.len() && (#[trigger] mods[i]).name@ == x && module_subscribes(
                    mods[i],
                    c,
                ),
        forall|i: int|
            0 <= i < mods.len() && module_subscribes(#[trigger] mods[i], c)
                ==> spec_subscribers(mods, c).contains(mods[i].name@),
    decreases mods.len(),
{
    if mods.len() > 0 {
        lemma_subscriber_members(mods.drop_last(), c);
        let subs = spec_subscribers(mods, c);
        let init = spec_subscribers(mods.drop_last(), c);
        assert forall|x: Seq<char>| subs.contains(x) implies exists|i: int|
            0 <= i < mods.len() && (#[trigger] mods[i]).name@ == x && module_subscribes(
                mods[i],
                c,
            ) by {
            if init.contains(x) {
                let i = choose|i: int|
                    0 <= i < mods.drop_last().len() && (#[trigger] mods.drop_last()[i]).name@
                        == x && module_subscribes(mods.drop_last()[i], c);
                assert(mods[i].name@ == x && module_subscribes(mods[i], c));
            } else {
                assert(module_subscribes(mods.last(), c) && mods.last().name@ == x);
                assert(mods[mods.len() - 1].name@ == x);
            }
        }
        assert forall|i: int|
            0 <= i < mods.len() && module_subscribes(#[trigger] mods[i], c) implies subs.contains(
            mods[i].name@,
        ) by {
            if i < mods.len() - 1 {
                assert(mods.drop_last()[i] == mods[i]);
                assert(init.contains(mods[i].name@));
                let w = choose|w: int| 0 <= w < init.len() && init[w] == mods[i].name@;
                if module_subscribes(mods.last(), c) {
                    assert(subs[w] == mods[i].name@);
                } else {
                    assert(subs[w] == mods[i].name@);
                }
            } else {
                assert(subs.last() == mods[i].name@);
            }
        }
    }
}

/// With unique module names, each subscribing module appears exactly once
/// in the fan-out: no name repeats.
pub proof fn lemma_subscribers_once(mods: Seq<ModuleConfig>, c: Seq<char>)
    requires
        unique_module_names(mods),
    ensures
        forall|a: int, b: int|
            0 <= a < b < spec_subscribers(mods, c).len() ==> spec_subscribers(mods, c)[a]
                != spec_subscribers(mods, c)[b],
    decreases mods.len(),
{
    if mods.len() > 0 {
        assert forall|i: int, j: int|
            0 <= i < j < mods.drop_last().len() implies (
        #[trigger] mods.drop_last()[i]).name@ != (#[trigger] mods.drop_last()[j]).name@ by {
            assert(mods[i].name@ != mods[j].name@);
        }
        lemma_subscribers_once(mods.drop_last(), c);
        lemma_subscriber_members(mods.drop_last(), c);
        let subs = spec_subscribers(mods, c);
        let init = spec_subscribers(mods.drop_last(), c);
        if module_subscribes(mods.last(), c) {
            if init.contains(mods.last().name@) {
                let i = choose|i: int|
                    0 <= i < mods.drop_last().len() && (#[trigger] mods.drop_last()[i]).name@
                        == mods.last().name@ && module_subscribes(mods.drop_last()[i], c);
                assert(mods[i].name@ == mods[mods.len() - 1].name@);
                assert(false);
            }
            assert forall|a: int, b: int| 0 <= a < b < subs.len() implies subs[a] != subs[b] by {
                if b < subs.len() - 1 {
                    assert(subs[a] == init[a] && subs[b] == init[b]);
                } else {
                    assert(subs[b] == mods.last().name@);
                    if subs[a] == mods.last().name@ {
                        assert(init[a] == mods.last().name@);
                        assert(init.contains(mods.last().name@));
                    }
                }
            }
        }
    }
}

/// The engine's load error for a module table with a repeated name.
#[derive(Debug)]
pub enum RegistryError {
    DuplicateModuleName(String),
}

/// The read-only module registry built at startup.
pub struct Registry {
    /// The loaded modules, in configuration order.
    pub modules: Vec<ModuleConfig>,
}

impl Registry {
    /// Module names are unique.
    pub open spec fn wf(self) -> bool {
        unique_module_names(self.modules@)
    }

    /// Builds the registry from the loader configuration.  A repeated
    /// module name aborts startup.
    pub fn try_new(loading: LoaderConfiguration) -> (r: Result<Registry, RegistryError>)
        ensures
            (match r {
                Ok(reg) => {
                    &&& reg.wf()
                    &&& reg.modules@ == loading.modules@
                    &&& unique_module_names(loading.modules@)
                },
                Err(RegistryError::DuplicateModuleName(n)) => {
                    &&& !unique_module_names(loading.modules@)
                    &&& exists|i: int, j: int|
                        0 <= i < j < loading.modules@.len() && (
                        #[trigger] loading.modules@[i]).name@ == (
                        #[trigger] loading.modules@[j]).name@ && loading.modules@[j].name@ == n@
                },
            }),
    {
        let mods = &loading.modules;
        let mut j: usize = 1;
        while j < mods.len()
            invariant
                mods@ == loading.modules@,
                1 <= j || mods@.len() == 0,
                j <= mods@.len() || j == 1,
                forall|a: int, b: int|
                    0 <= a < b < j && b < mods@.len() ==> (#[trigger] mods@[a]).name@ != (
                    #[trigger] mods@[b]).name@,
            decreases mods@.len() - j,
        {
            let mut i: usize = 0;
            while i < j
                invariant
                    mods@ == loading.modules@,
                    i <= j < mods@.len(),
                    forall|a: int| 0 <= a < i ==> (#[trigger] mods@[a]).name@ != mods@[
                        j as int
                    ].name@,
                decreases j - i,
            {
                if mods[i].name == mods[j].name {
                    proof {
                        let gi = i as int;
                        let gj = j as int;
                        assert(mods@[gi].name@ == mods@[gj].name@);
                        assert(loading.modules@ == mods@);
                        assert(0 <= gi < gj < loading.modules@.len());
                        assert((loading.modules@[gi]).name@ == (loading.modules@[gj]).name@);
                    }
                    return Err(RegistryError::DuplicateModuleName(mods[j].name.clone()));
                }
                i += 1;
            }
            j += 1;
        }
        Ok(Registry { modules: loading.modules })
    }

    /// The fan-out of one event: the modules subscribing to its channel,
    /// by name, in registry order — and, by `lemma_subscribers_once`,
    /// each at most once.
    pub fn subscribers(&self, channel: &String) -> (r: Vec<String>)
        ensures
            r.deep_view() == spec_subscribers(self.modules@, channel@),
    {
        let mut out: Vec<String> = Vec::new();
        let mut i: usize = 0;
        while i < self.modules.len()
            invariant
                i <= self.modules@.len(),
                out.deep_view() == spec_subscribers(self.modules@.subrange(0, i as int), channel@),
            decreases self.modules@.len() - i,
        {
            if vec_contains_string(&self.modules[i].channels, channel) {
                out.push(self.modules[i].name.clone());
            }
            proof {
                assert(self.modules@.subrange(0, i + 1 as int).drop_last() =~= self.modules@
                    .subrange(0, i as int));
                assert(out.deep_view() =~= spec_subscribers(
                    self.modules@.subrange(0, i + 1 as int),
                    channel@,
                ));
            }
            i += 1;
        }
        proof {
            assert(self.modules@.subrange(0, self.modules@.len() as int) =~= self.modules@);
        }
        out
    }
}

/// The bounded event queue behind `submit`: FIFO, with backpressure when
/// it is full.
pub struct LogQueue {
    /// The queued messages, oldest first.
    pub items: Vec<Message>,
    /// The most messages that may wait at once.
    pub capacity: usize,
}

impl LogQueue {
    /// The queue never holds more than its capacity.
    pub open spec fn wf(self) -> bool {
        self.items@.len() <= self.capacity
    }

    pub fn new(capacity: usize) -> (r: Self)
        ensures
            r.wf(),
            r.capacity == capacity,
            r.items@ == Seq::<Message>::empty(),
    {
        LogQueue { items: Vec::new(), capacity }
    }

    /// Accepts a message at the back of the queue, or fails fast and
    /// hands it back when the queue is full — a guest-initiated emit is
    /// not retried, while a source adapter may block and try again.
    pub fn try_submit(&mut self, m: Message) -> (r: Result<(), Message>)
        requires
            old(self).wf(),
        ensures
            final(self).wf(),
            final(self).capacity == old(self).capacity,
            old(self).items@.len() < old(self).capacity ==> r.is_ok() && final(self).items@
                == old(self).items@.push(m),
            old(self).items@.len() >= old(self).capacity ==> r == Err::<(), Message>(m)
                && final(self).items@ == old(self).items@,
    {
        if self.items.len() < self.capacity {
            self.items.push(m);
            Ok(())
        } else {
            Err(m)
        }
    }

    /// Takes the oldest queued message; the rest keep their order, which
    /// is what makes delivery FIFO within each channel.
    pub fn pop_next(&mut self) -> (r: Option<Message>)
        requires
            old(self).wf(),
        ensures
            final(self).wf(),
            final(self).capacity == old(self).capacity,
            old(self).items@.len() == 0 ==> r is None && final(self).items@ == old(self).items@,
            old(self).items@.len() > 0 ==> {
                &&& (match r {
                    Some(m) => m == old(self).items@[0],
                    None => false,
                })
                &&& final(self).items@ == old(self).items@.drop_first()
            },
    {
        if self.items.len() == 0 {
            None
        } else {
            let m = self.items.remove(0);
            proof {
                assert(self.items@ =~= old(self).items@.drop_first());
            }
            Some(m)
        }
    }
}

} // verus!
