use vstd::prelude::*;

use std::collections::BTreeMap;

use crate::config::{HardwareCommand, HardwareWatchdog, ResetReason, WatchdogConfig};
use crate::task::{lawful_id, Id, Task, TaskState};
use crate::time::Clock;
use vstd::std_specs::btree::spec_btree_map_iter;
use vstd::std_specs::iter::IteratorSpec;

verus! {

/// Some registered task has starved the watchdog at `now`.
pub open spec fn any_starved<I>(registry: Map<I, TaskState<I>>, now: u64) -> bool {
    exists|id: I| #[trigger] registry.contains_key(id) && registry[id].starved_at(now)
}

/// Every task of the registry, fed at `now`.
pub open spec fn all_fed_at<I>(registry: Map<I, TaskState<I>>, now: u64) -> Map<I, TaskState<I>> {
    registry.map_values(|task: TaskState<I>| task.fed_at(now))
}

/// The registry after feeding `id` at `now`; unchanged when `id` is not registered.
pub open spec fn fed_one<I>(registry: Map<I, TaskState<I>>, id: I, now: u64) -> Map<
    I,
    TaskState<I>,
> {
    if registry.contains_key(id) {
        registry.insert(id, registry[id].fed_at(now))
    } else {
        registry
    }
}

/// A watchdog over any number of tasks, kept in a map ordered by id.
pub struct Watchdog<I, W, C> {
    hw_watchdog: W,
    tasks: BTreeMap<I, Task<I>>,
    config: WatchdogConfig,
    clock: C,
}

impl<I: Id + Ord, W: HardwareWatchdog, C: Clock> Watchdog<I, W, C> {
    /// The registered tasks, by id.
    pub closed spec fn registry(&self) -> Map<I, TaskState<I>> {
        self.tasks@.map_values(|task: Task<I>| task@)
    }

    /// The hardware watchdog.
    pub closed spec fn hardware(&self) -> W {
        self.hw_watchdog
    }

    /// The configuration.
    pub closed spec fn configuration(&self) -> WatchdogConfig {
        self.config
    }

    /// The clock.
    pub closed spec fn time_source(&self) -> C {
        self.clock
    }

    /// The ids are lawfully ordered and each task is filed under its own id.
    pub closed spec fn wf(&self) -> bool {
        &&& lawful_id::<I>()
        &&& forall|id: I| #[trigger] self.tasks@.contains_key(id) ==> self.tasks@[id]@.id == id
    }

    /// A watchdog with no tasks.
    pub fn new(hw_watchdog: W, config: WatchdogConfig, clock: C) -> (watchdog: Self)
        requires
            lawful_id::<I>(),
        ensures
            watchdog.wf(),
            watchdog.registry() == Map::<I, TaskState<I>>::empty(),
            watchdog.hardware() == hw_watchdog,
            watchdog.configuration() == config,
            watchdog.time_source() == clock,
    {
        let watchdog = Watchdog { hw_watchdog, tasks: BTreeMap::new(), config, clock };
        assert(watchdog.registry() =~= Map::<I, TaskState<I>>::empty());
        watchdog
    }

    /// The configuration.
    pub fn config(&self) -> (config: WatchdogConfig)
        ensures
            config == self.configuration(),
    {
        self.config
    }

    /// Registers `id` as fed at `now`, replacing any task of that id.
    pub fn register_task_at(&mut self, id: &I, max_duration: u64, now: u64)
        requires
            old(self).wf(),
        ensures
            final(self).wf(),
            final(self).registry() == old(self).registry().insert(
                *id,
                TaskState { id: *id, last_feed: now, max_duration },
            ),
            final(self).hardware() == old(self).hardware(),
            final(self).configuration() == old(self).configuration(),
            final(self).time_source() == old(self).time_source(),
    {
        let task = Task::new_at(*id, max_duration, now);
        self.tasks.insert(*id, task);
        assert(self.registry() =~= old(self).registry().insert(
            *id,
            TaskState { id: *id, last_feed: now, max_duration },
        ));
    }

    /// Registers `id` as fed at the clock's current instant, replacing any
    /// task of that id.
    pub fn register_task(&mut self, id: &I, max_duration: u64)
        requires
            old(self).wf(),
        ensures
            final(self).wf(),
            exists|now: u64|
                call_ensures(C::now, (&old(self).time_source(),), now) &&
                final(self).registry() == old(self).registry().insert(
                    *id,
                    TaskState { id: *id, last_feed: now, max_duration },
                ),
            final(self).hardware() == old(self).hardware(),
            final(self).configuration() == old(self).configuration(),
            final(self).time_source() == old(self).time_source(),
    {
        let now: u64 = self.clock.now();
        self.register_task_at(id, max_duration, now);
    }

    /// Removes the task `id`, if it is registered.
    pub fn deregister_task(&mut self, id: &I)
        requires
            old(self).wf(),
        ensures
            final(self).wf(),
            final(self).registry() == old(self).registry().remove(*id),
            final(self).hardware() == old(self).hardware(),
            final(self).configuration() == old(self).configuration(),
            final(self).time_source() == old(self).time_source(),
    {
        let _ = self.tasks.remove(id);
        assert(self.registry() =~= old(self).registry().remove(*id));
    }

    /// Records that task `id` was fed at `now`; nothing changes for an
    /// unregistered id.
    pub fn feed_at(&mut self, id: &I, now: u64)
        requires
            old(self).wf(),
        ensures
            final(self).wf(),
            final(self).registry() == fed_one(old(self).registry(), *id, now),
            final(self).hardware() == old(self).hardware(),
            final(self).configuration() == old(self).configuration(),
            final(self).time_source() == old(self).time_source(),
    {
        match self.tasks.get(id) {
            Some(task) => {
                let mut task = *task;
                task.feed_at(now);
                self.tasks.insert(*id, task);
                assert(self.registry() =~= fed_one(old(self).registry(), *id, now));
            },
            None => {
                assert(self.registry() =~= fed_one(old(self).registry(), *id, now));
            },
        }
    }

    /// Records that task `id` was fed at the clock's current instant; nothing
    /// changes for an unregistered id.
    pub fn feed(&mut self, id: &I)
        requires
            old(self).wf(),
        ensures
            final(self).wf(),
            exists|now: u64|
                call_ensures(C::now, (&old(self).time_source(),), now) &&
                final(self).registry() == fed_one(old(self).registry(), *id, now),
            final(self).hardware() == old(self).hardware(),
            final(self).configuration() == old(self).configuration(),
            final(self).time_source() == old(self).time_source(),
    {
        let now: u64 = self.clock.now();
        self.feed_at(id, now);
    }

    /// Whether some task has starved at `now`, looking at every task.
    fn starved_at(&self, now: u64) -> (starved: bool)
        requires
            self.wf(),
        ensures
            starved == any_starved(self.registry(), now),
    {
        let mut starved: bool = false;
        for entry in it: self.tasks.iter()
            invariant
                it.seq() == spec_btree_map_iter(&self.tasks).remaining(),
                starved == exists|j: int| 0 <= j < it.index() && (#[trigger] it.seq()[j]).1@.starved_at(now),
        {
            let (_, task) = entry;
            if task.is_starved_at(now) {
                starved = true;
            }
        }
        let ghost v = spec_btree_map_iter(&self.tasks).remaining();
        proof {
            if starved {
                let j: int = choose|j: int| 0 <= j < v.len() && (#[trigger] v[j]).1@.starved_at(now);
                let k: I = *v[j].0;
                assert(self.tasks@.contains_key(k));
                assert(self.registry().contains_key(k) && self.registry()[k].starved_at(now));
            } else {
                assert forall|k: I| #[trigger] self.registry().contains_key(k) implies !self.registry()[k].starved_at(now) by {
                    assert(self.tasks@.contains_key(k));
                    assert(v.contains((&k, &self.tasks@[k])));
                    let j: int = choose|j: int| 0 <= j < v.len() && v[j] == (&k, &self.tasks@[k]);
                    assert(v[j].1@ == self.tasks@[k]@);
                }
            }
        }
        starved
    }

    /// The same tasks, every one fed at `now`.
    fn all_fed_tasks(&self, now: u64) -> (fed: BTreeMap<I, Task<I>>)
        requires
            self.wf(),
        ensures
            fed@.dom() == self.tasks@.dom(),
            forall|id: I| #[trigger] fed@.contains_key(id) ==> fed@[id]@ == self.tasks@[id]@.fed_at(now),
    {
        let mut fed: BTreeMap<I, Task<I>> = BTreeMap::new();
        for entry in it: self.tasks.iter()
            invariant
                lawful_id::<I>(),
                it.seq() == spec_btree_map_iter(&self.tasks).remaining(),
                forall|id: I| #[trigger] fed@.contains_key(id) <==> exists|j: int| 0 <= j < it.index() && *(#[trigger] it.seq()[j]).0 == id,
                forall|id: I| #[trigger] fed@.contains_key(id) ==> self.tasks@.contains_key(id) && fed@[id]@ == self.tasks@[id]@.fed_at(now),
        {
            let (id, task) = entry;
            let mut task = *task;
            task.feed_at(now);
            fed.insert(*id, task);
        }
        let ghost v = spec_btree_map_iter(&self.tasks).remaining();
        assert forall|id: I| #[trigger] self.tasks@.contains_key(id) implies fed@.contains_key(id) by {
            assert(v.contains((&id, &self.tasks@[id])));
            let j: int = choose|j: int| 0 <= j < v.len() && v[j] == (&id, &self.tasks@[id]);
            assert(*v[j].0 == id);
        }
        assert(fed@.dom() =~= self.tasks@.dom());
        fed
    }

    /// Feeds every task at `now` and starts the hardware watchdog with the
    /// configured timeout.
    pub fn start_at(&mut self, now: u64)
        requires
            old(self).wf(),
        ensures
            final(self).wf(),
            final(self).registry() == all_fed_at(old(self).registry(), now),
            final(self).hardware().requests() == old(self).hardware().requests().push(
                HardwareCommand::Start(old(self).configuration().hardware_timeout),
            ),
            final(self).configuration() == old(self).configuration(),
            final(self).time_source() == old(self).time_source(),
    {
        let fed = self.all_fed_tasks(now);
        self.tasks = fed;
        assert(self.registry() =~= all_fed_at(old(self).registry(), now));
        let timeout: u64 = self.config.hardware_timeout;
        self.hw_watchdog.start(timeout);
    }

    /// Feeds every task at the clock's current instant and starts the
    /// hardware watchdog with the configured timeout.
    pub fn start(&mut self)
        requires
            old(self).wf(),
        ensures
            final(self).wf(),
            exists|now: u64|
                call_ensures(C::now, (&old(self).time_source(),), now) &&
                final(self).registry() == all_fed_at(old(self).registry(), now),
            final(self).hardware().requests() == old(self).hardware().requests().push(
                HardwareCommand::Start(old(self).configuration().hardware_timeout),
            ),
            final(self).configuration() == old(self).configuration(),
            final(self).time_source() == old(self).time_source(),
    {
        let now: u64 = self.clock.now();
        self.start_at(now);
    }

    /// Checks the tasks at `now`: returns whether some task has starved, and
    /// feeds the hardware watchdog only when none has.
    pub fn check_at(&mut self, now: u64) -> (starved: bool)
        requires
            old(self).wf(),
        ensures
            final(self).wf(),
            starved == any_starved(old(self).registry(), now),
            starved ==> final(self).hardware() == old(self).hardware(),
            final(self).hardware().requests() == if starved {
                old(self).hardware().requests()
            } else {
                old(self).hardware().requests().push(HardwareCommand::Feed)
            },
            final(self).registry() == old(self).registry(),
            final(self).configuration() == old(self).configuration(),
            final(self).time_source() == old(self).time_source(),
    {
        let starved: bool = self.starved_at(now);
        if !starved {
            self.hw_watchdog.feed();
        }
        starved
    }

    /// Checks the tasks at the clock's current instant: returns whether some
    /// task has starved, and feeds the hardware watchdog only when none has.
    pub fn check(&mut self) -> (starved: bool)
        requires
            old(self).wf(),
        ensures
            final(self).wf(),
            exists|now: u64|
                call_ensures(C::now, (&old(self).time_source(),), now) &&
                starved == any_starved(old(self).registry(), now),
            starved ==> final(self).hardware() == old(self).hardware(),
            final(self).hardware().requests() == if starved {
                old(self).hardware().requests()
            } else {
                old(self).hardware().requests().push(HardwareCommand::Feed)
            },
            final(self).registry() == old(self).registry(),
            final(self).configuration() == old(self).configuration(),
            final(self).time_source() == old(self).time_source(),
    {
        let now: u64 = self.clock.now();
        self.check_at(now)
    }

    /// Has the hardware watchdog reset the system.
    pub fn trigger_reset(&mut self)
        requires
            old(self).wf(),
        ensures
            final(self).wf(),
            final(self).hardware().requests() == old(self).hardware().requests().push(
                HardwareCommand::Reset,
            ),
            final(self).registry() == old(self).registry(),
            final(self).configuration() == old(self).configuration(),
            final(self).time_source() == old(self).time_source(),
    {
        self.hw_watchdog.trigger_reset();
    }

    /// Why the system was last reset, as the hardware watchdog tells.
    pub fn reset_reason(&self) -> (reason: Option<ResetReason>)
        ensures
            call_ensures(W::reset_reason, (&self.hardware(),), reason),
    {
        self.hw_watchdog.reset_reason()
    }
}

} // verus!
