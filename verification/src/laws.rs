use vstd::prelude::*;

use crate::map_watchdog::{all_fed_at, any_starved, fed_one};
use crate::platform::nrf_ticks;
use crate::slot_watchdog::{
    any_slot_starved, first_free, first_holding, has_free_slot, holds, holds_somewhere,
    lemma_free_slot_iff_not_full, lemma_occupied_update, occupied, one_record_per_id,
    registered_anew, registered_in, slot_fed, slot_freed, slot_replaced, slots_fed_at,
};
use crate::task::{elapsed_between, lawful_eq, Id, TaskState};
use vstd::std_specs::cmp::PartialEqSpec;

verus! {

/// Once a task has starved, it stays starved until it is fed: starvation at
/// one instant implies starvation at every later instant.
pub proof fn starvation_persists<I>(task: TaskState<I>, earlier: u64, later: u64)
    requires
        earlier <= later,
        task.starved_at(earlier),
    ensures
        task.starved_at(later),
{
}

/// A task fed at `fed` is starved at `now` exactly when its maximum duration
/// has passed since `fed`; in particular, with a nonzero maximum it is not
/// starved at the instant it is fed.
pub proof fn feeding_restarts_the_period<I>(task: TaskState<I>, fed: u64, now: u64)
    ensures
        task.fed_at(fed).starved_at(now) <==> elapsed_between(fed, now) >= task.max_duration,
        task.max_duration > 0 ==> !task.fed_at(fed).starved_at(fed),
{
}

/// A check that finds a starved task at one instant finds one at every later
/// instant, as long as the registry is unchanged.
pub proof fn starved_check_persists<I>(registry: Map<I, TaskState<I>>, earlier: u64, later: u64)
    requires
        earlier <= later,
        any_starved(registry, earlier),
    ensures
        any_starved(registry, later),
{
    let id: I = choose|id: I| #[trigger] registry.contains_key(id) && registry[id].starved_at(earlier);
    assert(registry.contains_key(id) && registry[id].starved_at(later));
}

/// Right after `start`, no task whose maximum duration is nonzero has
/// starved, so the first check feeds the hardware watchdog.
pub proof fn started_watchdog_is_healthy<I>(registry: Map<I, TaskState<I>>, now: u64)
    requires
        forall|id: I| #[trigger] registry.contains_key(id) ==> registry[id].max_duration > 0,
    ensures
        !any_starved(all_fed_at(registry, now), now),
{
    assert forall|id: I| #[trigger] all_fed_at(registry, now).contains_key(id) implies !all_fed_at(
        registry,
        now,
    )[id].starved_at(now) by {
        assert(registry.contains_key(id));
    }
}

/// A task registered at `now` with a nonzero maximum duration is not starved
/// at `now`, whatever the registry held before.
pub proof fn registered_task_is_healthy<I>(
    registry: Map<I, TaskState<I>>,
    id: I,
    max_duration: u64,
    now: u64,
)
    requires
        max_duration > 0,
    ensures
        !registry.insert(id, TaskState { id, last_feed: now, max_duration })[id].starved_at(now),
{
}

/// Deregistering a task undoes registering it, when the id was not
/// registered before.
pub proof fn deregister_undoes_register<I>(
    registry: Map<I, TaskState<I>>,
    id: I,
    max_duration: u64,
    now: u64,
)
    requires
        !registry.contains_key(id),
    ensures
        registry.insert(id, TaskState { id, last_feed: now, max_duration }).remove(id) == registry,
{
    assert(registry.insert(id, TaskState { id, last_feed: now, max_duration }).remove(id)
        =~= registry);
}

/// Feeding a task touches no other task, and feeding an unregistered id
/// changes nothing.
pub proof fn feeding_touches_only_that_task<I>(
    registry: Map<I, TaskState<I>>,
    id: I,
    other: I,
    now: u64,
)
    requires
        other != id,
    ensures
        fed_one(registry, id, now).contains_key(other) == registry.contains_key(other),
        registry.contains_key(other) ==> fed_one(registry, id, now)[other] == registry[other],
        !registry.contains_key(id) ==> fed_one(registry, id, now) == registry,
        fed_one(registry, id, now).dom() == registry.dom(),
{
    assert(fed_one(registry, id, now).dom() =~= registry.dom());
}


/// Registration fails exactly when every slot is occupied.
pub proof fn registration_fails_only_when_full<I>(slots: Seq<Option<TaskState<I>>>)
    ensures
        !has_free_slot(slots) <==> occupied(slots) == slots.len(),
{
    lemma_free_slot_iff_not_full(slots);
}

/// A successful registration takes exactly one more slot.
pub proof fn registration_takes_one_slot<I>(
    slots: Seq<Option<TaskState<I>>>,
    i: int,
    id: I,
    max_duration: u64,
    now: u64,
)
    requires
        first_free(slots, i),
    ensures
        occupied(registered_in(slots, i, id, max_duration, now)) == occupied(slots) + 1,
{
    lemma_occupied_update(slots, i, Some(TaskState { id, last_feed: now, max_duration }));
}

/// Deregistering a registered id frees exactly one slot; deregistering an
/// id no slot holds changes nothing.
pub proof fn deregistration_frees_one_slot<I: Id>(slots: Seq<Option<TaskState<I>>>, id: I)
    ensures
        holds_somewhere(slots, id) ==> occupied(slot_freed(slots, id)) + 1 == occupied(slots),
        !holds_somewhere(slots, id) ==> slot_freed(slots, id) == slots,
{
    if holds_somewhere(slots, id) {
        let k: int = choose|k: int| 0 <= k < slots.len() && holds(#[trigger] slots[k], id);
        let i: int = first_holding_index(slots, id, k);
        assert forall|j: int| 0 <= j < slots.len() && j != i implies !first_holding(slots, id, j) by {
            if j > i {
                assert(holds(slots[i], id));
            }
        }
        assert(slot_freed(slots, id) =~= slots.update(i, None));
        lemma_occupied_update(slots, i, None);
    } else {
        assert(slot_freed(slots, id) =~= slots);
    }
}

/// The first slot at or before `k` that holds `id`, when slot `k` holds it.
proof fn first_holding_index<I: Id>(slots: Seq<Option<TaskState<I>>>, id: I, k: int) -> (i: int)
    requires
        0 <= k < slots.len(),
        holds(slots[k], id),
    ensures
        first_holding(slots, id, i),
        i <= k,
    decreases k,
{
    if exists|j: int| 0 <= j < k && holds(#[trigger] slots[j], id) {
        let j: int = choose|j: int| 0 <= j < k && holds(#[trigger] slots[j], id);
        first_holding_index(slots, id, j)
    } else {
        k
    }
}


/// In the slot watchdog too, a check that finds a starved task at one
/// instant finds one at every later instant, as long as the slots are
/// unchanged.
pub proof fn slot_starved_check_persists<I>(
    slots: Seq<Option<TaskState<I>>>,
    earlier: u64,
    later: u64,
)
    requires
        earlier <= later,
        any_slot_starved(slots, earlier),
    ensures
        any_slot_starved(slots, later),
{
    let i: int = choose|i: int|
        0 <= i < slots.len() && (#[trigger] slots[i] matches Some(task) && task.starved_at(
            earlier,
        ));
    assert(slots[i] matches Some(task) && task.starved_at(later));
}

/// With one record per id, an id is held by at most one slot.
pub proof fn slot_id_has_one_record<I: Id>(slots: Seq<Option<TaskState<I>>>, id: I, i: int, j: int)
    requires
        lawful_eq::<I>(),
        one_record_per_id(slots),
        0 <= i < slots.len(),
        0 <= j < slots.len(),
        holds(slots[i], id),
        holds(slots[j], id),
    ensures
        i == j,
{
    reveal(vstd::laws_eq::obeys_eq_spec_properties);
    if i != j {
        let a: I = slots[i]->0.id;
        let b: I = slots[j]->0.id;
        assert(a.eq_spec(&id));
        assert(b.eq_spec(&id));
        assert(id.eq_spec(&b));
        assert(a.eq_spec(&b));
        assert(!holds(slots[i], slots[j]->0.id));
    }
}

/// Registering an id that a slot already holds takes no further slot.
pub proof fn reregistration_takes_no_slot<I: Id>(
    slots: Seq<Option<TaskState<I>>>,
    id: I,
    max_duration: u64,
    now: u64,
)
    requires
        holds_somewhere(slots, id),
    ensures
        occupied(slot_replaced(slots, id, max_duration, now)) == occupied(slots),
{
    let k: int = choose|k: int| 0 <= k < slots.len() && holds(#[trigger] slots[k], id);
    let i: int = first_holding_index(slots, id, k);
    assert forall|j: int| 0 <= j < slots.len() && j != i implies !first_holding(slots, id, j) by {
        if j > i {
            assert(holds(slots[i], id));
        }
    }
    let record = TaskState { id, last_feed: now, max_duration };
    assert(slot_replaced(slots, id, max_duration, now) =~= slots.update(i, Some(record)));
    lemma_occupied_update(slots, i, Some(record));
}

/// In the slot watchdog, registering an id no slot holds and then
/// deregistering it restores every slot.
pub proof fn slot_deregister_undoes_register<I: Id>(
    slots: Seq<Option<TaskState<I>>>,
    i: int,
    id: I,
    max_duration: u64,
    now: u64,
)
    requires
        lawful_eq::<I>(),
        first_free(slots, i),
        !holds_somewhere(slots, id),
    ensures
        slot_freed(registered_in(slots, i, id, max_duration, now), id) == slots,
{
    let after = registered_in(slots, i, id, max_duration, now);
    assert(id.eq_spec(&id));
    assert(first_holding(after, id, i)) by {
        assert forall|j: int| 0 <= j < i implies !holds(#[trigger] after[j], id) by {
            if holds(after[j], id) {
                assert(holds(slots[j], id));
            }
        }
    }
    assert forall|j: int| 0 <= j < after.len() && j != i implies !first_holding(after, id, j) by {
        if j < i {
            assert(after[j] == slots[j]);
            if holds(slots[j], id) {
                assert(holds_somewhere(slots, id));
            }
        } else if j > i {
            assert(holds(after[i], id));
        }
    }
    assert(slot_freed(after, id) =~= slots);
}


/// The elapsed time is the difference of the instants, saturating at zero:
/// from `since` to a `now` at or after it, exactly `now - since`
/// milliseconds, one more for every millisecond `now` moves on.
pub proof fn elapsed_is_the_difference(since: u64, now: u64)
    ensures
        since <= now ==> elapsed_between(since, now) == now - since,
        now < since ==> elapsed_between(since, now) == 0,
        since <= now < u64::MAX ==> elapsed_between(since, (now + 1) as u64) == elapsed_between(
            since,
            now,
        ) + 1,
{
}

/// A task has starved at `now` exactly when at least its maximum duration
/// has passed since its last feed; an instant before the last feed counts
/// as no time passed.
pub proof fn starvation_is_the_deadline_passing<I>(task: TaskState<I>, now: u64)
    ensures
        task.starved_at(now) <==> (if task.last_feed <= now {
            now - task.last_feed >= task.max_duration
        } else {
            task.max_duration == 0
        }),
{
}

/// The map watchdog's check reports starvation exactly when some registered
/// task, whichever it is, has gone at least its maximum duration unfed.
pub proof fn check_looks_at_every_task<I>(registry: Map<I, TaskState<I>>, now: u64)
    ensures
        any_starved(registry, now) <==> exists|id: I|
            #[trigger] registry.contains_key(id) && if registry[id].last_feed <= now {
                now - registry[id].last_feed >= registry[id].max_duration
            } else {
                registry[id].max_duration == 0
            },
{
}

/// The slot watchdog's check reports starvation exactly when some occupied
/// slot, at any index and whatever the slots before it hold, holds a task
/// that has gone at least its maximum duration unfed.
pub proof fn slot_check_looks_at_every_slot<I>(slots: Seq<Option<TaskState<I>>>, now: u64)
    ensures
        any_slot_starved(slots, now) <==> exists|i: int|
            0 <= i < slots.len() && #[trigger] slots[i] is Some && if slots[i]->0.last_feed
                <= now {
                now - slots[i]->0.last_feed >= slots[i]->0.max_duration
            } else {
                slots[i]->0.max_duration == 0
            },
{
    if any_slot_starved(slots, now) {
        let i: int = choose|i: int|
            0 <= i < slots.len() && (#[trigger] slots[i] matches Some(task) && task.starved_at(
                now,
            ));
        assert(slots[i] is Some);
    }
}

/// The map watchdog's start leaves the same tasks, each with its id and
/// maximum, and every one last fed at `now`.
pub proof fn start_feeds_every_task<I>(registry: Map<I, TaskState<I>>, now: u64)
    ensures
        all_fed_at(registry, now).dom() == registry.dom(),
        forall|id: I| #[trigger]
            registry.contains_key(id) ==> all_fed_at(registry, now)[id] == (TaskState {
                id: registry[id].id,
                last_feed: now,
                max_duration: registry[id].max_duration,
            }),
{
    assert(all_fed_at(registry, now).dom() =~= registry.dom());
}

/// The slot watchdog's start keeps every slot's occupant and feeds it at
/// `now`, at any index and whatever the slots before it hold; free slots
/// stay free.
pub proof fn slot_start_feeds_every_slot<I>(slots: Seq<Option<TaskState<I>>>, now: u64)
    ensures
        slots_fed_at(slots, now).len() == slots.len(),
        forall|i: int|
            0 <= i < slots.len() ==> {
                &&& (#[trigger] slots[i] is None ==> slots_fed_at(slots, now)[i] is None)
                &&& (slots[i] is Some ==> slots_fed_at(slots, now)[i] == Some(
                    TaskState {
                        id: slots[i]->0.id,
                        last_feed: now,
                        max_duration: slots[i]->0.max_duration,
                    },
                ))
            },
{
}

/// Feeding a registered id in the map watchdog sets that task's last feed
/// to `now` and keeps its id and maximum; every other task stays as it was.
pub proof fn feed_sets_the_last_feed<I>(registry: Map<I, TaskState<I>>, id: I, now: u64)
    requires
        registry.contains_key(id),
    ensures
        fed_one(registry, id, now)[id] == (TaskState {
            id: registry[id].id,
            last_feed: now,
            max_duration: registry[id].max_duration,
        }),
        fed_one(registry, id, now).dom() == registry.dom(),
        forall|other: I| #[trigger]
            registry.contains_key(other) && other != id ==> fed_one(registry, id, now)[other]
                == registry[other],
{
    assert(fed_one(registry, id, now).dom() =~= registry.dom());
}

/// Feeding in the slot watchdog sets the last feed of the first slot that
/// holds the id to `now`, keeping its id and maximum; every other slot stays
/// as it was.
pub proof fn slot_feed_sets_the_last_feed<I: Id>(
    slots: Seq<Option<TaskState<I>>>,
    id: I,
    i: int,
    now: u64,
)
    requires
        0 <= i < slots.len(),
        holds(slots[i], id),
        forall|j: int| 0 <= j < i ==> !holds(#[trigger] slots[j], id),
    ensures
        slot_fed(slots, id, now).len() == slots.len(),
        slot_fed(slots, id, now)[i] == Some(
            TaskState { id: slots[i]->0.id, last_feed: now, max_duration: slots[i]->0.max_duration },
        ),
        forall|j: int|
            0 <= j < slots.len() && j != i ==> #[trigger] slot_fed(slots, id, now)[j] == slots[j],
{
    assert(first_holding(slots, id, i));
    assert forall|j: int| 0 <= j < slots.len() && j != i implies #[trigger] slot_fed(
        slots,
        id,
        now,
    )[j] == slots[j] by {
        if j > i {
            assert(holds(slots[i], id));
        }
    }
}

/// Deregistering in the slot watchdog frees the first slot that holds the
/// id; every other slot stays as it was.
pub proof fn slot_deregister_frees_that_slot<I: Id>(
    slots: Seq<Option<TaskState<I>>>,
    id: I,
    i: int,
)
    requires
        0 <= i < slots.len(),
        holds(slots[i], id),
        forall|j: int| 0 <= j < i ==> !holds(#[trigger] slots[j], id),
    ensures
        slot_freed(slots, id).len() == slots.len(),
        slot_freed(slots, id)[i] is None,
        forall|j: int|
            0 <= j < slots.len() && j != i ==> #[trigger] slot_freed(slots, id)[j] == slots[j],
{
    assert(first_holding(slots, id, i));
    assert forall|j: int| 0 <= j < slots.len() && j != i implies #[trigger] slot_freed(
        slots,
        id,
    )[j] == slots[j] by {
        if j > i {
            assert(holds(slots[i], id));
        }
    }
}

/// A registration in the slot watchdog leaves one slot holding a record of
/// the id, last fed at `now`, with the given maximum, and changes no other
/// slot; so with a nonzero maximum the new task is not starved at `now`.
pub proof fn slot_registration_records_now<I: Id>(
    before: Seq<Option<TaskState<I>>>,
    after: Seq<Option<TaskState<I>>>,
    id: I,
    max_duration: u64,
    now: u64,
)
    requires
        registered_anew(before, after, id, max_duration, now),
    ensures
        after.len() == before.len(),
        exists|i: int|
            0 <= i < after.len() && #[trigger] after[i] == Some(
                TaskState { id, last_feed: now, max_duration },
            ) && (forall|j: int| 0 <= j < after.len() && j != i ==> #[trigger] after[j] == before[j])
                && if holds_somewhere(before, id) {
                before[i] is Some && before[i]->0.id.eq_spec(&id)
            } else {
                before[i] is None && forall|j: int| 0 <= j < i ==> #[trigger] before[j] is Some
            },
        max_duration > 0 ==> forall|i: int|
            0 <= i < after.len() && #[trigger] after[i] == Some(
                TaskState { id, last_feed: now, max_duration },
            ) ==> !after[i]->0.starved_at(now),
{
    let record = TaskState { id, last_feed: now, max_duration };
    if holds_somewhere(before, id) {
        let k: int = choose|k: int| 0 <= k < before.len() && holds(#[trigger] before[k], id);
        let i: int = first_holding_index(before, id, k);
        assert forall|j: int| 0 <= j < before.len() && j != i implies !first_holding(
            before,
            id,
            j,
        ) by {
            if j > i {
                assert(holds(before[i], id));
            }
        }
        assert(after[i] == Some(record));
        assert forall|j: int| 0 <= j < after.len() && j != i implies #[trigger] after[j]
            == before[j] by {
            assert(!first_holding(before, id, j));
        }
    } else {
        let i: int = choose|i: int|
            first_free(before, i) && after == registered_in(before, i, id, max_duration, now);
        assert(after[i] == Some(record));
        assert forall|j: int| 0 <= j < after.len() && j != i implies #[trigger] after[j]
            == before[j] by {}
    }
}

/// The nRF tick count is the timeout in whole ticks of a 32,768 Hz clock:
/// `timeout_ms * 32768 / 1000`, so one more second adds exactly 32,768 ticks.
pub proof fn nrf_ticks_count_a_32768_hz_clock(timeout_ms: u64)
    ensures
        nrf_ticks(timeout_ms) == timeout_ms * 32_768 / 1000,
        timeout_ms <= u64::MAX - 1000 ==> nrf_ticks((timeout_ms + 1000) as u64) == nrf_ticks(
            timeout_ms,
        ) + 32_768,
{
    let a: int = timeout_ms * 32_768;
    assert((a + 32_768_000) / 1000 == a / 1000 + 32_768) by (nonlinear_arith)
        requires
            a >= 0,
    ;
}


/// A slot holds an id exactly when it is occupied by a task whose id equals
/// it.
pub proof fn holding_is_equal_id<I: Id>(slot: Option<TaskState<I>>, id: I)
    ensures
        holds(slot, id) <==> (slot is Some && slot->0.id.eq_spec(&id)),
{
}

/// Some slot is free exactly when one of the slots is empty.
pub proof fn free_slot_is_an_empty_slot<I>(slots: Seq<Option<TaskState<I>>>)
    ensures
        has_free_slot(slots) <==> exists|i: int| 0 <= i < slots.len() && #[trigger] slots[i] is None,
{
}

} // verus!
