use vstd::prelude::*;

use crate::config::{Error, HardwareCommand, HardwareWatchdog, ResetReason, WatchdogConfig};
use crate::task::{lawful_eq, Id, Task, TaskState};
use crate::time::Clock;
use vstd::std_specs::cmp::PartialEqSpec;

verus! {

/// The slot holds a task of id `id`.
pub open spec fn holds<I: Id>(slot: Option<TaskState<I>>, id: I) -> bool {
    match slot {
        Some(task) => task.id.eq_spec(&id),
        None => false,
    }
}

/// Slot `i` is the first free one.
pub open spec fn first_free<I>(slots: Seq<Option<TaskState<I>>>, i: int) -> bool {
    &&& 0 <= i < slots.len()
    &&& slots[i] is None
    &&& forall|j: int| 0 <= j < i ==> #[trigger] slots[j] is Some
}

/// Slot `i` is the first that holds a task of id `id`.
pub open spec fn first_holding<I: Id>(slots: Seq<Option<TaskState<I>>>, id: I, i: int) -> bool {
    &&& 0 <= i < slots.len()
    &&& holds(slots[i], id)
    &&& forall|j: int| 0 <= j < i ==> !holds(#[trigger] slots[j], id)
}

/// Some slot is free.
pub open spec fn has_free_slot<I>(slots: Seq<Option<TaskState<I>>>) -> bool {
    exists|i: int| 0 <= i < slots.len() && #[trigger] slots[i] is None
}

/// Some slot holds a task of id `id`.
pub open spec fn holds_somewhere<I: Id>(slots: Seq<Option<TaskState<I>>>, id: I) -> bool {
    exists|i: int| 0 <= i < slots.len() && holds(#[trigger] slots[i], id)
}

/// Some occupied slot holds a task that has starved at `now`.
pub open spec fn any_slot_starved<I>(slots: Seq<Option<TaskState<I>>>, now: u64) -> bool {
    exists|i: int|
        0 <= i < slots.len() && (#[trigger] slots[i] matches Some(task) && task.starved_at(now))
}

/// Every occupied slot fed at `now`.
pub open spec fn slots_fed_at<I>(slots: Seq<Option<TaskState<I>>>, now: u64) -> Seq<
    Option<TaskState<I>>,
> {
    slots.map_values(
        |slot: Option<TaskState<I>>|
            match slot {
                Some(task) => Some(task.fed_at(now)),
                None => None,
            },
    )
}

/// The slots after registering `id` at `now` into the first free slot.
pub open spec fn registered_in<I>(
    slots: Seq<Option<TaskState<I>>>,
    i: int,
    id: I,
    max_duration: u64,
    now: u64,
) -> Seq<Option<TaskState<I>>> {
    slots.update(i, Some(TaskState { id, last_feed: now, max_duration }))
}

/// The slots after `id` is fed at `now`: the first slot holding `id` is fed,
/// the rest stay as they are.
pub open spec fn slot_fed<I: Id>(slots: Seq<Option<TaskState<I>>>, id: I, now: u64) -> Seq<
    Option<TaskState<I>>,
> {
    Seq::new(
        slots.len(),
        |j: int|
            if first_holding(slots, id, j) {
                Some(slots[j]->0.fed_at(now))
            } else {
                slots[j]
            },
    )
}

/// The slots after `id` is deregistered: the first slot holding `id` is
/// freed, the rest stay as they are.
pub open spec fn slot_freed<I: Id>(slots: Seq<Option<TaskState<I>>>, id: I) -> Seq<
    Option<TaskState<I>>,
> {
    Seq::new(slots.len(), |j: int| if first_holding(slots, id, j) { None } else { slots[j] })
}

/// No two occupied slots hold tasks of equal ids.
pub open spec fn one_record_per_id<I: Id>(slots: Seq<Option<TaskState<I>>>) -> bool {
    forall|i: int, j: int|
        #![trigger slots[i], slots[j]]
        0 <= i < slots.len() && 0 <= j < slots.len() && i != j && slots[j] is Some ==> !holds(
            slots[i],
            slots[j]->0.id,
        )
}

/// The slots after the task of id `id` is registered anew at `now`, where a
/// slot already holds `id`: the first such slot gets the new record.
pub open spec fn slot_replaced<I: Id>(
    slots: Seq<Option<TaskState<I>>>,
    id: I,
    max_duration: u64,
    now: u64,
) -> Seq<Option<TaskState<I>>> {
    Seq::new(
        slots.len(),
        |j: int|
            if first_holding(slots, id, j) {
                Some(TaskState { id, last_feed: now, max_duration })
            } else {
                slots[j]
            },
    )
}

/// Putting a record in slot `i` keeps one record per id, when no other slot
/// holds its id.
pub proof fn lemma_put_keeps_one_record<I: Id>(
    slots: Seq<Option<TaskState<I>>>,
    i: int,
    record: TaskState<I>,
)
    requires
        lawful_eq::<I>(),
        one_record_per_id(slots),
        0 <= i < slots.len(),
        forall|k: int| 0 <= k < slots.len() && k != i ==> !holds(#[trigger] slots[k], record.id),
    ensures
        one_record_per_id(slots.update(i, Some(record))),
{
    reveal(vstd::laws_eq::obeys_eq_spec_properties);
    let put = slots.update(i, Some(record));
    assert forall|a: int, b: int|
        #![trigger put[a], put[b]]
        0 <= a < put.len() && 0 <= b < put.len() && a != b && put[b] is Some implies !holds(
        put[a],
        put[b]->0.id,
    ) by {
        if a == i {
            let other = slots[b]->0.id;
            assert(!holds(slots[b], record.id));
            assert(!other.eq_spec(&record.id));
            if record.id.eq_spec(&other) {
                assert(other.eq_spec(&record.id));
            }
        } else if b == i {
            assert(!holds(slots[a], record.id));
        } else {
            assert(!holds(slots[a], slots[b]->0.id));
        }
    }
}

/// `after` is `before` with `id` registered at `now`: in the slot that holds
/// it, or else in the first free slot.
pub open spec fn registered_anew<I: Id>(
    before: Seq<Option<TaskState<I>>>,
    after: Seq<Option<TaskState<I>>>,
    id: I,
    max_duration: u64,
    now: u64,
) -> bool {
    if holds_somewhere(before, id) {
        after == slot_replaced(before, id, max_duration, now)
    } else {
        exists|i: int|
            first_free(before, i) && after == registered_in(before, i, id, max_duration, now)
    }
}

/// The number of occupied slots.
pub open spec fn occupied<I>(slots: Seq<Option<TaskState<I>>>) -> nat
    decreases slots.len(),
{
    if slots.len() == 0 {
        0
    } else {
        occupied(slots.drop_last()) + if slots.last() is Some {
            1nat
        } else {
            0nat
        }
    }
}

/// Replacing one slot changes the count by what leaves and what enters.
pub proof fn lemma_occupied_update<I>(
    slots: Seq<Option<TaskState<I>>>,
    i: int,
    slot: Option<TaskState<I>>,
)
    requires
        0 <= i < slots.len(),
    ensures
        occupied(slots.update(i, slot)) + (if slots[i] is Some {
            1int
        } else {
            0int
        }) == occupied(slots) + (if slot is Some {
            1int
        } else {
            0int
        }),
    decreases slots.len(),
{
    let updated = slots.update(i, slot);
    if i == slots.len() - 1 {
        assert(updated.drop_last() =~= slots.drop_last());
    } else {
        lemma_occupied_update(slots.drop_last(), i, slot);
        assert(updated.drop_last() =~= slots.drop_last().update(i, slot));
    }
}

/// Some slot is free exactly when fewer than all slots are occupied.
pub proof fn lemma_free_slot_iff_not_full<I>(slots: Seq<Option<TaskState<I>>>)
    ensures
        occupied(slots) <= slots.len(),
        has_free_slot(slots) <==> occupied(slots) < slots.len(),
    decreases slots.len(),
{
    if slots.len() > 0 {
        let rest = slots.drop_last();
        lemma_free_slot_iff_not_full(rest);
        if has_free_slot(rest) {
            let i: int = choose|i: int| 0 <= i < rest.len() && #[trigger] rest[i] is None;
            assert(slots[i] is None);
        }
        if has_free_slot(slots) && slots.last() is Some {
            let i: int = choose|i: int| 0 <= i < slots.len() && #[trigger] slots[i] is None;
            assert(rest[i] is None);
        }
        if slots.last() is None {
            assert(slots[slots.len() - 1] is None);
        }
    }
}

/// The abstract content of a slot.
pub open spec fn slot_state<I>(slot: Option<Task<I>>) -> Option<TaskState<I>> {
    match slot {
        Some(task) => Some(task@),
        None => None,
    }
}

/// A watchdog over at most `N` tasks, kept in a fixed array of slots.
pub struct Watchdog<I, const N: usize, W, C> {
    hw_watchdog: W,
    tasks: [Option<Task<I>>; N],
    config: WatchdogConfig,
    clock: C,
}

impl<I: Id, const N: usize, W: HardwareWatchdog, C: Clock> Watchdog<I, N, W, C> {
    /// The slots, in order.
    pub closed spec fn slots(&self) -> Seq<Option<TaskState<I>>> {
        self.tasks@.map_values(|slot: Option<Task<I>>| slot_state(slot))
    }

    /// The hardware watchdog.
    pub closed spec fn hardware(&self) -> W {
        self.hw_watchdog
    }

    /// The configuration.
    pub closed spec fn configuration(&self) -> WatchdogConfig {
        self.config
    }

    /// The clock.
    pub closed spec fn time_source(&self) -> C {
        self.clock
    }

    /// The ids compare lawfully, there are `N` slots, and no id is held by two
    /// slots.
    pub closed spec fn wf(&self) -> bool {
        &&& lawful_eq::<I>()
        &&& self.slots().len() == N
        &&& one_record_per_id(self.slots())
    }

    /// A well-formed watchdog holds at most one record per id.
    pub proof fn lemma_one_record_per_id(&self)
        requires
            self.wf(),
        ensures
            one_record_per_id(self.slots()),
            self.slots().len() == N,
            lawful_eq::<I>(),
    {
    }

    /// A watchdog with `N` free slots.
    pub fn new(hw_watchdog: W, config: WatchdogConfig, clock: C) -> (watchdog: Self)
        requires
            lawful_eq::<I>(),
        ensures
            watchdog.wf(),
            watchdog.slots().len() == N,
            forall|i: int| 0 <= i < N ==> #[trigger] watchdog.slots()[i] is None,
            watchdog.hardware() == hw_watchdog,
            watchdog.configuration() == config,
            watchdog.time_source() == clock,
    {
        Watchdog { hw_watchdog, tasks: [None; N], config, clock }
    }

    /// The configuration.
    pub fn config(&self) -> (config: WatchdogConfig)
        ensures
            config == self.configuration(),
    {
        self.config
    }

    /// Registers `id` as fed at `now`.  When no slot is free the registration
    /// fails and nothing changes.  Otherwise a slot that already holds `id`
    /// gets the new record, or else the first free slot does.
    pub fn register_task_at(&mut self, id: &I, max_duration: u64, now: u64) -> (result: Result<
        (),
        Error,
    >)
        requires
            old(self).wf(),
        ensures
            final(self).wf(),
            result is Ok <==> has_free_slot(old(self).slots()),
            match result {
                Ok(()) => registered_anew(
                    old(self).slots(),
                    final(self).slots(),
                    *id,
                    max_duration,
                    now,
                ),
                Err(e) => e == Error::NoSlotsAvailable && final(self).slots() == old(self).slots(),
            },
            result is Ok ==> holds_somewhere(final(self).slots(), *id),
            final(self).hardware() == old(self).hardware(),
            final(self).configuration() == old(self).configuration(),
            final(self).time_source() == old(self).time_source(),
    {
        proof {
            reveal(vstd::laws_eq::obeys_eq_spec_properties);
        }
        let ghost before = self.slots();
        let mut free: bool = false;
        let mut i: usize = 0;
        while i < N
            invariant
                0 <= i <= N,
                self.tasks@.len() == N,
                before == self.slots(),
                free == exists|j: int| 0 <= j < i && #[trigger] before[j] is None,
            decreases N - i,
        {
            assert(before[i as int] == slot_state(self.tasks@[i as int]));
            if self.tasks[i].is_none() {
                free = true;
            }
            i = i + 1;
        }
        if !free {
            return Err(Error::NoSlotsAvailable);
        }
        let record = Task::new_at(*id, max_duration, now);
        let mut i: usize = 0;
        while i < N
            invariant
                0 <= i <= N,
                self.wf(),
                self.tasks@.len() == N,
                before == self.slots(),
                forall|j: int| 0 <= j < i ==> !holds(#[trigger] before[j], *id),
                has_free_slot(before),
                self.tasks == old(self).tasks,
                self.hw_watchdog == old(self).hw_watchdog,
                self.config == old(self).config,
                self.clock == old(self).clock,
                record@ == (TaskState { id: *id, last_feed: now, max_duration }),
            decreases N - i,
        {
            if let Some(task) = self.tasks[i] {
                if task.id() == *id {
                    self.tasks[i] = Some(record);
                    proof {
                        assert(first_holding(before, *id, i as int));
                        assert forall|k: int| 0 <= k < N && k != i implies !first_holding(
                            before,
                            *id,
                            k,
                        ) by {
                            if k > i {
                                assert(holds(before[i as int], *id));
                            }
                        }
                        assert(self.slots() =~= slot_replaced(before, *id, max_duration, now));
                        assert(holds(self.slots()[i as int], *id));
                        let held: I = before[i as int]->0.id;
                        assert forall|k: int| 0 <= k < N && k != i implies !holds(
                            #[trigger] before[k],
                            *id,
                        ) by {
                            if k > i && holds(before[k], *id) {
                                reveal(vstd::laws_eq::obeys_eq_spec_properties);
                                let other: I = before[k]->0.id;
                                assert(other.eq_spec(id));
                                assert(held.eq_spec(id));
                                assert((*id).eq_spec(&held));
                                assert(other.eq_spec(&held));
                                assert(!holds(before[k], before[i as int]->0.id));
                            }
                        }
                        assert(self.slots() =~= before.update(i as int, Some(record@)));
                        lemma_put_keeps_one_record(before, i as int, record@);
                    }
                    return Ok(());
                }
            }
            i = i + 1;
        }
        assert(!holds_somewhere(before, *id));
        let mut i: usize = 0;
        while i < N
            invariant
                0 <= i <= N,
                self.wf(),
                self.tasks@.len() == N,
                before == self.slots(),
                !holds_somewhere(before, *id),
                has_free_slot(before),
                forall|j: int| 0 <= j < i ==> #[trigger] self.tasks@[j] is Some,
                self.tasks == old(self).tasks,
                self.hw_watchdog == old(self).hw_watchdog,
                self.config == old(self).config,
                self.clock == old(self).clock,
                record@ == (TaskState { id: *id, last_feed: now, max_duration }),
            decreases N - i,
        {
            if self.tasks[i].is_none() {
                self.tasks[i] = Some(record);
                proof {
                    assert(first_free(before, i as int));
                    assert(self.slots() =~= registered_in(before, i as int, *id, max_duration, now));
                    assert(holds(self.slots()[i as int], *id));
                    assert forall|k: int| 0 <= k < N && k != i implies !holds(
                        #[trigger] before[k],
                        *id,
                    ) by {
                        if holds(before[k], *id) {
                            assert(holds_somewhere(before, *id));
                        }
                    }
                    lemma_put_keeps_one_record(before, i as int, record@);
                }
                return Ok(());
            }
            i = i + 1;
        }
        assert forall|j: int| 0 <= j < self.slots().len() implies !(#[trigger] self.slots()[j] is None) by {
            assert(self.tasks@[j] is Some);
        }
        Err(Error::NoSlotsAvailable)
    }

    /// Registers `id` as fed at the clock's current instant, as
    /// [`Self::register_task_at`] does.
    pub fn register_task(&mut self, id: &I, max_duration: u64) -> (result: Result<(), Error>)
        requires
            old(self).wf(),
        ensures
            final(self).wf(),
            result is Ok <==> has_free_slot(old(self).slots()),
            match result {
                Ok(()) => exists|now: u64|
                    call_ensures(C::now, (&old(self).time_source(),), now) && registered_anew(
                        old(self).slots(),
                        final(self).slots(),
                        *id,
                        max_duration,
                        now,
                    ),
                Err(e) => e == Error::NoSlotsAvailable && final(self).slots() == old(self).slots(),
            },
            result is Ok ==> holds_somewhere(final(self).slots(), *id),
            final(self).hardware() == old(self).hardware(),
            final(self).configuration() == old(self).configuration(),
            final(self).time_source() == old(self).time_source(),
    {
        let now: u64 = self.clock.now();
        self.register_task_at(id, max_duration, now)
    }

    /// Frees the first slot that holds `id`; nothing changes when no slot does.
    pub fn deregister_task(&mut self, id: &I)
        requires
            old(self).wf(),
        ensures
            final(self).wf(),
            final(self).slots() == slot_freed(old(self).slots(), *id),
            final(self).hardware() == old(self).hardware(),
            final(self).configuration() == old(self).configuration(),
            final(self).time_source() == old(self).time_source(),
    {
        let ghost before = self.slots();
        let mut i: usize = 0;
        while i < N
            invariant
                0 <= i <= N,
                self.wf(),
                self.tasks@.len() == N,
                before == self.slots(),
                forall|j: int| 0 <= j < i ==> !holds(#[trigger] before[j], *id),
                self.tasks == old(self).tasks,
                self.hw_watchdog == old(self).hw_watchdog,
                self.config == old(self).config,
                self.clock == old(self).clock,
            decreases N - i,
        {
            if let Some(task) = self.tasks[i] {
                if task.id() == *id {
                    self.tasks[i] = None;
                    proof {
                        assert(first_holding(before, *id, i as int));
                        assert forall|k: int| 0 <= k < N && k != i implies !first_holding(before, *id, k) by {
                            if k > i {
                                assert(holds(before[i as int], *id));
                            }
                        }
                        assert(self.slots() =~= slot_freed(before, *id));
                    }
                    return;
                }
            }
            i = i + 1;
        }
    }

    /// Records that the first slot holding `id` was fed at `now`; nothing
    /// changes when no slot holds `id`.
    pub fn feed_at(&mut self, id: &I, now: u64)
        requires
            old(self).wf(),
        ensures
            final(self).wf(),
            final(self).slots() == slot_fed(old(self).slots(), *id, now),
            final(self).hardware() == old(self).hardware(),
            final(self).configuration() == old(self).configuration(),
            final(self).time_source() == old(self).time_source(),
    {
        let ghost before = self.slots();
        let mut i: usize = 0;
        while i < N
            invariant
                0 <= i <= N,
                self.wf(),
                self.tasks@.len() == N,
                before == self.slots(),
                forall|j: int| 0 <= j < i ==> !holds(#[trigger] before[j], *id),
                self.tasks == old(self).tasks,
                self.hw_watchdog == old(self).hw_watchdog,
                self.config == old(self).config,
                self.clock == old(self).clock,
            decreases N - i,
        {
            if let Some(task) = self.tasks[i] {
                if task.id() == *id {
                    let mut task = task;
                    task.feed_at(now);
                    self.tasks[i] = Some(task);
                    proof {
                        assert(first_holding(before, *id, i as int));
                        assert forall|k: int| 0 <= k < N && k != i implies !first_holding(before, *id, k) by {
                            if k > i {
                                assert(holds(before[i as int], *id));
                            }
                        }
                        assert(self.slots() =~= slot_fed(before, *id, now));
                    }
                    return;
                }
            }
            i = i + 1;
        }
    }

    /// Records that the first slot holding `id` was fed at the clock's current
    /// instant; nothing changes when no slot holds `id`.
    pub fn feed(&mut self, id: &I)
        requires
            old(self).wf(),
        ensures
            final(self).wf(),
            exists|now: u64|
                call_ensures(C::now, (&old(self).time_source(),), now) &&
                final(self).slots() == slot_fed(old(self).slots(), *id, now),
            final(self).hardware() == old(self).hardware(),
            final(self).configuration() == old(self).configuration(),
            final(self).time_source() == old(self).time_source(),
    {
        let now: u64 = self.clock.now();
        self.feed_at(id, now);
    }

    /// Feeds every registered task at `now` and starts the hardware watchdog
    /// with the configured timeout.
    pub fn start_at(&mut self, now: u64)
        requires
            old(self).wf(),
        ensures
            final(self).wf(),
            final(self).slots() == slots_fed_at(old(self).slots(), now),
            final(self).hardware().requests() == old(self).hardware().requests().push(
                HardwareCommand::Start(old(self).configuration().hardware_timeout),
            ),
            final(self).configuration() == old(self).configuration(),
            final(self).time_source() == old(self).time_source(),
    {
        let ghost before = self.slots();
        let mut i: usize = 0;
        while i < N
            invariant
                0 <= i <= N,
                self.wf(),
                self.tasks@.len() == N,
                before.len() == N,
                forall|j: int| 0 <= j < i ==> #[trigger] self.slots()[j] == slots_fed_at(before, now)[j],
                forall|j: int| i <= j < N ==> #[trigger] self.slots()[j] == before[j],
                self.hw_watchdog == old(self).hw_watchdog,
                self.config == old(self).config,
                self.clock == old(self).clock,
            decreases N - i,
        {
            let ghost prev = self.slots();
            if let Some(task) = self.tasks[i] {
                let mut task = task;
                task.feed_at(now);
                self.tasks[i] = Some(task);
                assert(self.slots() =~= prev.update(i as int, Some(prev[i as int]->0.fed_at(now))));
            }
            assert(self.slots()[i as int] == slots_fed_at(before, now)[i as int]);
            i = i + 1;
        }
        assert(self.slots() =~= slots_fed_at(before, now));
        let timeout: u64 = self.config.hardware_timeout;
        self.hw_watchdog.start(timeout);
    }

    /// Feeds every registered task at the clock's current instant and starts
    /// the hardware watchdog with the configured timeout.
    pub fn start(&mut self)
        requires
            old(self).wf(),
        ensures
            final(self).wf(),
            exists|now: u64|
                call_ensures(C::now, (&old(self).time_source(),), now) &&
                final(self).slots() == slots_fed_at(old(self).slots(), now),
            final(self).hardware().requests() == old(self).hardware().requests().push(
                HardwareCommand::Start(old(self).configuration().hardware_timeout),
            ),
            final(self).configuration() == old(self).configuration(),
            final(self).time_source() == old(self).time_source(),
    {
        let now: u64 = self.clock.now();
        self.start_at(now);
    }

    /// Checks the tasks at `now`: returns whether some task has starved, and
    /// feeds the hardware watchdog only when none has.
    pub fn check_at(&mut self, now: u64) -> (starved: bool)
        requires
            old(self).wf(),
        ensures
            final(self).wf(),
            starved == any_slot_starved(old(self).slots(), now),
            starved ==> final(self).hardware() == old(self).hardware(),
            final(self).hardware().requests() == if starved {
                old(self).hardware().requests()
            } else {
                old(self).hardware().requests().push(HardwareCommand::Feed)
            },
            final(self).slots() == old(self).slots(),
            final(self).configuration() == old(self).configuration(),
            final(self).time_source() == old(self).time_source(),
    {
        let ghost slots = self.slots();
        let mut starved: bool = false;
        let mut i: usize = 0;
        while i < N
            invariant
                0 <= i <= N,
                self.tasks@.len() == N,
                slots == self.slots(),
                starved == exists|j: int|
                    0 <= j < i && (#[trigger] slots[j] matches Some(task) && task.starved_at(now)),
            decreases N - i,
        {
            assert(slots[i as int] == slot_state(self.tasks@[i as int]));
            if let Some(task) = self.tasks[i] {
                if task.is_starved_at(now) {
                    starved = true;
                }
            }
            i = i + 1;
        }
        if !starved {
            self.hw_watchdog.feed();
        }
        starved
    }

    /// Checks the tasks at the clock's current instant: returns whether some
    /// task has starved, and feeds the hardware watchdog only when none has.
    pub fn check(&mut self) -> (starved: bool)
        requires
            old(self).wf(),
        ensures
            final(self).wf(),
            exists|now: u64|
                call_ensures(C::now, (&old(self).time_source(),), now) &&
                starved == any_slot_starved(old(self).slots(), now),
            starved ==> final(self).hardware() == old(self).hardware(),
            final(self).hardware().requests() == if starved {
                old(self).hardware().requests()
            } else {
                old(self).hardware().requests().push(HardwareCommand::Feed)
            },
            final(self).slots() == old(self).slots(),
            final(self).configuration() == old(self).configuration(),
            final(self).time_source() == old(self).time_source(),
    {
        let now: u64 = self.clock.now();
        self.check_at(now)
    }

    /// Has the hardware watchdog reset the system.
    pub fn trigger_reset(&mut self)
        requires
            old(self).wf(),
        ensures
            final(self).wf(),
            final(self).hardware().requests() == old(self).hardware().requests().push(
                HardwareCommand::Reset,
            ),
            final(self).slots() == old(self).slots(),
            final(self).configuration() == old(self).configuration(),
            final(self).time_source() == old(self).time_source(),
    {
        self.hw_watchdog.trigger_reset();
    }

    /// Why the system was last reset, as the hardware watchdog tells.
    pub fn reset_reason(&self) -> (reason: Option<ResetReason>)
        ensures
            call_ensures(W::reset_reason, (&self.hardware(),), reason),
    {
        self.hw_watchdog.reset_reason()
    }
}

} // verus!
