use vstd::prelude::*;

use crate::time::{has_elapsed, Clock};
use vstd::std_specs::cmp::PartialEqSpec;

verus! {

/// Identifies a task to the watchdog.
///
/// An enum with one variant per task is the natural choice.  The watchdogs
/// take the type's equality to be lawful (see [`lawful_eq`]), as `Eq`
/// promises; the map watchdog also orders ids, and takes that ordering to be
/// lawful too (see [`lawful_id`]).
pub trait Id: Eq + Copy {
}

/// The id type's `==` and `Ord` behave as an equivalence and a total order.
pub open spec fn lawful_id<I: Id + Ord>() -> bool {
    &&& vstd::laws_cmp::obeys_cmp::<I>()
    &&& forall|x: I| #[trigger] x.eq_spec(&x)
}

/// The id type's `==` behaves as an equivalence: reflexive, symmetric and
/// transitive.
pub open spec fn lawful_eq<I: Id>() -> bool {
    &&& vstd::laws_eq::obeys_eq::<I>()
    &&& forall|x: I| #[trigger] x.eq_spec(&x)
}

/// What the watchdog knows of a task: its id, the instant it was last fed and
/// the longest it may go without being fed.
pub struct TaskState<I> {
    pub id: I,
    pub last_feed: u64,
    pub max_duration: u64,
}

/// Milliseconds from `since` to `now`; zero when `now` is not after `since`.
pub open spec fn elapsed_between(since: u64, now: u64) -> nat {
    if since <= now {
        (now - since) as nat
    } else {
        0
    }
}

impl<I> TaskState<I> {
    /// The task has starved the watchdog at `now`: at least its maximum
    /// duration has passed since it was last fed.
    pub open spec fn starved_at(self, now: u64) -> bool {
        elapsed_between(self.last_feed, now) >= self.max_duration
    }

    /// The same task, fed at `now`.
    pub open spec fn fed_at(self, now: u64) -> TaskState<I> {
        TaskState { id: self.id, last_feed: now, max_duration: self.max_duration }
    }
}

/// A task monitored by the watchdog.
#[derive(Clone, Copy)]
pub struct Task<I> {
    id: I,
    last_feed: u64,
    max_duration: u64,
}

impl<I> View for Task<I> {
    type V = TaskState<I>;

    closed spec fn view(&self) -> TaskState<I> {
        TaskState { id: self.id, last_feed: self.last_feed, max_duration: self.max_duration }
    }
}

} // verus!

verus! {

impl<I: Id> Task<I> {
    /// A task registered at `now`.
    pub fn new_at(id: I, max_duration: u64, now: u64) -> (task: Self)
        ensures
            task@ == (TaskState { id, last_feed: now, max_duration }),
    {
        Task { id, last_feed: now, max_duration }
    }

    /// A task registered at the clock's current instant.
    pub fn new<C: Clock>(id: I, max_duration: u64, clock: &C) -> (task: Self)
        ensures
            exists|now: u64|
                call_ensures(C::now, (clock,), now) && task@ == (TaskState {
                    id,
                    last_feed: now,
                    max_duration,
                }),
    {
        let now: u64 = clock.now();
        Self::new_at(id, max_duration, now)
    }

    /// The task's id.
    pub fn id(&self) -> (id: I)
        ensures
            id == self@.id,
    {
        self.id
    }

    /// When the task was last fed.
    pub fn last_feed(&self) -> (t: u64)
        ensures
            t == self@.last_feed,
    {
        self.last_feed
    }

    /// The longest the task may go unfed.
    pub fn max_duration(&self) -> (d: u64)
        ensures
            d == self@.max_duration,
    {
        self.max_duration
    }

    /// Records that the task was fed at `now`.
    pub fn feed_at(&mut self, now: u64)
        ensures
            final(self)@ == old(self)@.fed_at(now),
    {
        self.last_feed = now;
    }

    /// Records that the task was fed at the clock's current instant.
    pub fn feed<C: Clock>(&mut self, clock: &C)
        ensures
            exists|now: u64|
                call_ensures(C::now, (clock,), now) &&
                final(self)@ == old(self)@.fed_at(now),
    {
        let now: u64 = clock.now();
        self.feed_at(now);
    }

    /// Whether the task has starved the watchdog at `now`.
    pub fn is_starved_at(&self, now: u64) -> (starved: bool)
        ensures
            starved == self@.starved_at(now),
    {
        has_elapsed(now, self.last_feed, self.max_duration)
    }

    /// Whether the task has starved the watchdog at the clock's current instant.
    pub fn is_starved<C: Clock>(&self, clock: &C) -> (starved: bool)
        ensures
            exists|now: u64|
                call_ensures(C::now, (clock,), now) &&
                starved == self@.starved_at(now),
    {
        let now: u64 = clock.now();
        self.is_starved_at(now)
    }
}

} // verus!
