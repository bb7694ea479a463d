//! The bookkeeping of a bounded connection pool.
//!
//! The pool lends out at most `capacity` connections. It opens them one by
//! one, only when a request finds no idle connection, and never closes one.
//! A task that asks while every connection is lent out is queued; the next
//! release hands the returned connection to the task that has waited longest.
//! A queued task that runs out of patience leaves the queue and its request
//! fails as `PoolError::Exhausted`.
//!
//! Nothing here blocks, sleeps or opens a socket. The pool is a state machine
//! whose steps are `acquire`, `release` and `time_out`; the caller does the
//! waiting and owns the physical connections, one per slot number.

use vstd::prelude::*;

verus! {

/// Names the task on whose behalf a connection is requested.
pub type TaskId = u64;

/// A lease on one pooled connection: the slot that holds the connection and
/// the task that the slot is lent to.
#[derive(Clone, Copy, Debug, PartialEq, Eq, Structural)]
pub struct ConnectionHandle {
    pub slot: usize,
    pub task: TaskId,
}

/// Why a request for a connection failed.
#[derive(Clone, Copy, Debug, PartialEq, Eq, Structural)]
pub enum PoolError {
    /// Every connection stayed lent out for as long as the caller would wait.
    Exhausted,
}

/// What a request for a connection led to.
#[derive(Clone, Copy, Debug, PartialEq, Eq, Structural)]
pub enum Acquired {
    /// The caller holds this lease now.
    Leased(ConnectionHandle),
    /// Every connection is lent out; the task is queued.
    Blocked,
}

/// What giving a lease back led to.
#[derive(Clone, Copy, Debug, PartialEq, Eq, Structural)]
pub enum Released {
    /// The connection is idle again.
    Idle,
    /// The connection went straight to the longest-waiting task, which holds
    /// this lease now.
    HandedOver(ConnectionHandle),
    /// The handle names no current lease; nothing changed.
    Ignored,
}

/// The number of lent-out slots among `slots`.
pub open spec fn count_leased(slots: Seq<Option<TaskId>>) -> nat
    decreases slots.len(),
{
    if slots.len() == 0 {
        0
    } else {
        count_leased(slots.drop_last()) + if slots.last() is Some {
            1nat
        } else {
            0nat
        }
    }
}

/// The lowest idle slot at or after `start`, or the number of slots if there
/// is none.
pub open spec fn first_idle_from(slots: Seq<Option<TaskId>>, start: int) -> int
    decreases slots.len() - start,
{
    if start < 0 || start >= slots.len() {
        slots.len() as int
    } else if slots[start] is None {
        start
    } else {
        first_idle_from(slots, start + 1)
    }
}

/// The lowest slot at or after `start` that is lent to `task`, or the number
/// of slots if there is none.
pub open spec fn first_lent_from(slots: Seq<Option<TaskId>>, task: TaskId, start: int) -> int
    decreases slots.len() - start,
{
    if start < 0 || start >= slots.len() {
        slots.len() as int
    } else if slots[start] == Some(task) {
        start
    } else {
        first_lent_from(slots, task, start + 1)
    }
}

/// The state of a pool: its bound, the owner of each opened connection
/// (`None` for an idle one) and the queue of waiting tasks, longest wait
/// first.
pub struct PoolModel {
    pub capacity: nat,
    pub slots: Seq<Option<TaskId>>,
    pub waiting: Seq<TaskId>,
}

impl PoolModel {
    /// A pool that has opened no connection yet.
    pub open spec fn fresh(capacity: nat) -> PoolModel {
        PoolModel { capacity, slots: Seq::empty(), waiting: Seq::empty() }
    }

    /// The states a pool can be in: it never opens more connections than its
    /// bound, no task waits twice, and a task only waits while every
    /// connection has been opened and is lent out.
    pub open spec fn wf(self) -> bool {
        &&& self.capacity <= usize::MAX
        &&& self.slots.len() <= self.capacity
        &&& self.waiting.no_duplicates()
        &&& self.waiting.len() > 0 ==> self.saturated()
    }

    /// The number of connections opened so far.
    pub open spec fn opened(self) -> nat {
        self.slots.len()
    }

    /// The number of connections that are lent out.
    pub open spec fn leased_count(self) -> nat {
        count_leased(self.slots)
    }

    /// The number of opened connections that are idle.
    pub open spec fn idle_count(self) -> nat {
        (self.slots.len() - count_leased(self.slots)) as nat
    }

    /// The lowest idle slot, or the number of slots if none is idle.
    pub open spec fn first_idle(self) -> int {
        first_idle_from(self.slots, 0)
    }

    /// No connection is idle and no further one may be opened.
    pub open spec fn saturated(self) -> bool {
        &&& self.slots.len() == self.capacity
        &&& forall|i: int| 0 <= i < self.slots.len() ==> (#[trigger] self.slots[i]) is Some
    }

    /// `handle` names a lease that is current.
    pub open spec fn holds(self, handle: ConnectionHandle) -> bool {
        &&& handle.slot < self.slots.len()
        &&& self.slots[handle.slot as int] == Some(handle.task)
    }

    /// The lease that `task` holds, if it holds one: the one with the lowest
    /// slot number, if it holds several.
    pub open spec fn lease_of(self, task: TaskId) -> Option<ConnectionHandle> {
        let slot = first_lent_from(self.slots, task, 0);
        if slot < self.slots.len() {
            Some(ConnectionHandle { slot: slot as usize, task })
        } else {
            None
        }
    }

    /// A request by `task`: it gets the lowest idle connection; failing that,
    /// a newly opened one; failing that, a place at the end of the queue
    /// (unless it is queued already).
    pub open spec fn acquire(self, task: TaskId) -> (PoolModel, Acquired) {
        let idle = self.first_idle();
        if idle < self.slots.len() {
            (
                PoolModel { slots: self.slots.update(idle, Some(task)), ..self },
                Acquired::Leased(ConnectionHandle { slot: idle as usize, task }),
            )
        } else if self.slots.len() < self.capacity {
            (
                PoolModel { slots: self.slots.push(Some(task)), ..self },
                Acquired::Leased(ConnectionHandle { slot: self.slots.len() as usize, task }),
            )
        } else if self.waiting.contains(task) {
            (self, Acquired::Blocked)
        } else {
            (PoolModel { waiting: self.waiting.push(task), ..self }, Acquired::Blocked)
        }
    }

    /// The return of `handle`: a handle that names no current lease changes
    /// nothing; otherwise the connection goes to the head of the queue, or
    /// becomes idle if nobody waits.
    pub open spec fn release(self, handle: ConnectionHandle) -> (PoolModel, Released) {
        if !self.holds(handle) {
            (self, Released::Ignored)
        } else if self.waiting.len() > 0 {
            let next = self.waiting[0];
            (
                PoolModel {
                    slots: self.slots.update(handle.slot as int, Some(next)),
                    waiting: self.waiting.drop_first(),
                    ..self
                },
                Released::HandedOver(ConnectionHandle { slot: handle.slot, task: next }),
            )
        } else {
            (
                PoolModel { slots: self.slots.update(handle.slot as int, None), ..self },
                Released::Idle,
            )
        }
    }

    /// The end of `task`'s patience: if it is queued it leaves the queue and
    /// its request fails; if it is not, nothing happens.
    pub open spec fn time_out(self, task: TaskId) -> (PoolModel, Result<(), PoolError>) {
        if self.waiting.contains(task) {
            (
                PoolModel { waiting: self.waiting.remove(self.waiting.index_of(task)), ..self },
                Err(PoolError::Exhausted),
            )
        } else {
            (self, Ok(()))
        }
    }

    /// A request that does not wait: `acquire`, and for a task that was
    /// queued, `time_out` at once.
    pub open spec fn try_acquire(self, task: TaskId) -> (PoolModel, Result<
        ConnectionHandle,
        PoolError,
    >) {
        match self.acquire(task).1 {
            Acquired::Leased(handle) => (self.acquire(task).0, Ok(handle)),
            Acquired::Blocked => (
                self.acquire(task).0.time_out(task).0,
                Err(PoolError::Exhausted),
            ),
        }
    }
}

/// `first_idle_from` finds an idle slot at or after `start`, skips only
/// lent-out ones, and answers the number of slots when none is idle.
pub proof fn lemma_first_idle_from(slots: Seq<Option<TaskId>>, start: int)
    requires
        0 <= start <= slots.len(),
    ensures
        start <= first_idle_from(slots, start) <= slots.len(),
        first_idle_from(slots, start) < slots.len() ==> slots[first_idle_from(slots, start)] is None,
        forall|i: int| start <= i < first_idle_from(slots, start) ==> (#[trigger] slots[i]) is Some,
    decreases slots.len() - start,
{
    if start < slots.len() && slots[start] is Some {
        lemma_first_idle_from(slots, start + 1);
    }
}

/// `first_lent_from` finds a slot at or after `start` that is lent to `task`,
/// skips only slots that are not, and answers the number of slots when the
/// task holds none of them.
pub proof fn lemma_first_lent_from(slots: Seq<Option<TaskId>>, task: TaskId, start: int)
    requires
        0 <= start <= slots.len(),
    ensures
        start <= first_lent_from(slots, task, start) <= slots.len(),
        first_lent_from(slots, task, start) < slots.len() ==> slots[first_lent_from(
            slots,
            task,
            start,
        )] == Some(task),
        forall|i: int|
            start <= i < first_lent_from(slots, task, start) ==> (#[trigger] slots[i]) != Some(task),
    decreases slots.len() - start,
{
    if start < slots.len() && slots[start] != Some(task) {
        lemma_first_lent_from(slots, task, start + 1);
    }
}

/// No more slots are lent out than there are slots.
pub proof fn lemma_count_bounded(slots: Seq<Option<TaskId>>)
    ensures
        count_leased(slots) <= slots.len(),
    decreases slots.len(),
{
    if slots.len() > 0 {
        lemma_count_bounded(slots.drop_last());
    }
}

/// Opening a connection for a task lends out one more slot.
pub proof fn lemma_count_push(slots: Seq<Option<TaskId>>, owner: Option<TaskId>)
    ensures
        count_leased(slots.push(owner)) == count_leased(slots) + if owner is Some {
            1nat
        } else {
            0nat
        },
{
    assert(slots.push(owner).drop_last() =~= slots);
}

/// Changing the owner of one slot changes the count by that slot alone.
pub proof fn lemma_count_update(slots: Seq<Option<TaskId>>, i: int, owner: Option<TaskId>)
    requires
        0 <= i < slots.len(),
    ensures
        count_leased(slots.update(i, owner)) + (if slots[i] is Some {
            1nat
        } else {
            0nat
        }) == count_leased(slots) + (if owner is Some {
            1nat
        } else {
            0nat
        }),
    decreases slots.len(),
{
    let updated = slots.update(i, owner);
    if i == slots.len() - 1 {
        assert(updated.drop_last() =~= slots.drop_last());
    } else {
        lemma_count_update(slots.drop_last(), i, owner);
        assert(updated.drop_last() =~= slots.drop_last().update(i, owner));
    }
}

/// Every slot is lent out exactly when the count equals the number of slots.
pub proof fn lemma_count_full(slots: Seq<Option<TaskId>>)
    ensures
        count_leased(slots) == slots.len() <==> forall|i: int|
            0 <= i < slots.len() ==> (#[trigger] slots[i]) is Some,
    decreases slots.len(),
{
    if slots.len() > 0 {
        let rest = slots.drop_last();
        lemma_count_full(rest);
        lemma_count_bounded(rest);
        if count_leased(slots) == slots.len() {
            assert forall|i: int| 0 <= i < slots.len() implies (#[trigger] slots[i]) is Some by {
                if i < rest.len() {
                    assert(rest[i] is Some);
                }
            }
        }
        if forall|i: int| 0 <= i < slots.len() ==> (#[trigger] slots[i]) is Some {
            assert forall|i: int| 0 <= i < rest.len() implies (#[trigger] rest[i]) is Some by {
                assert(slots[i] is Some);
            }
            assert(slots.last() is Some);
        }
    }
}

/// A request leaves the pool in a state it can be in.
pub proof fn lemma_acquire_keeps_wf(pool: PoolModel, task: TaskId)
    requires
        pool.wf(),
    ensures
        pool.acquire(task).0.wf(),
{
    lemma_first_idle_from(pool.slots, 0);
    let idle = pool.first_idle();
    let next = pool.acquire(task).0;
    if idle < pool.slots.len() {
        assert(pool.slots[idle] is None);
        assert(pool.waiting.len() == 0);
    } else if pool.slots.len() < pool.capacity {
        assert(pool.waiting.len() == 0);
    } else if !pool.waiting.contains(task) {
        assert(next.saturated());
        assert forall|i: int, j: int|
            0 <= i < next.waiting.len() && 0 <= j < next.waiting.len() && i != j implies next.waiting[i]
            != next.waiting[j] by {
            if i < pool.waiting.len() && j < pool.waiting.len() {
            } else if i < pool.waiting.len() {
                assert(pool.waiting.contains(pool.waiting[i]));
            } else {
                assert(pool.waiting.contains(pool.waiting[j]));
            }
        }
    }
}

/// A return leaves the pool in a state it can be in.
pub proof fn lemma_release_keeps_wf(pool: PoolModel, handle: ConnectionHandle)
    requires
        pool.wf(),
    ensures
        pool.release(handle).0.wf(),
{
    let next = pool.release(handle).0;
    if pool.holds(handle) && pool.waiting.len() > 0 {
        assert(next.saturated());
        assert forall|i: int, j: int|
            0 <= i < next.waiting.len() && 0 <= j < next.waiting.len() && i != j implies next.waiting[i]
            != next.waiting[j] by {
            assert(next.waiting[i] == pool.waiting[i + 1]);
            assert(next.waiting[j] == pool.waiting[j + 1]);
        }
    }
}

/// A timeout leaves the pool in a state it can be in.
pub proof fn lemma_time_out_keeps_wf(pool: PoolModel, task: TaskId)
    requires
        pool.wf(),
    ensures
        pool.time_out(task).0.wf(),
{
    let next = pool.time_out(task).0;
    if pool.waiting.contains(task) {
        let at = pool.waiting.index_of(task);
        pool.waiting.remove_ensures(at);
        assert forall|i: int, j: int|
            0 <= i < next.waiting.len() && 0 <= j < next.waiting.len() && i != j implies next.waiting[i]
            != next.waiting[j] by {
            let from_i = if i < at { i } else { i + 1 };
            let from_j = if j < at { j } else { j + 1 };
            assert(next.waiting[i] == pool.waiting[from_i]);
            assert(next.waiting[j] == pool.waiting[from_j]);
        }
    }
}

/// The place of `task` in `queue`, if it is there.
fn position_of(queue: &Vec<TaskId>, task: TaskId) -> (found: Option<usize>)
    ensures
        match found {
            Some(at) => at < queue.len() && queue[at as int] == task,
            None => !queue@.contains(task),
        },
{
    let mut i: usize = 0;
    while i < queue.len()
        invariant
            i <= queue.len(),
            forall|k: int| 0 <= k < i ==> queue[k] != task,
        decreases queue.len() - i,
    {
        if queue[i] == task {
            return Some(i);
        }
        i += 1;
    }
    None
}

/// A bounded pool of connections, as its bookkeeping sees it.
#[derive(Debug)]
pub struct Pool {
    capacity: usize,
    slots: Vec<Option<TaskId>>,
    waiting: Vec<TaskId>,
}

impl View for Pool {
    type V = PoolModel;

    closed spec fn view(&self) -> PoolModel {
        PoolModel { capacity: self.capacity as nat, slots: self.slots@, waiting: self.waiting@ }
    }
}

impl Pool {
    /// Every pool is in a state that a pool can be in.
    #[verifier::type_invariant]
    pub open spec fn consistent(self) -> bool {
        self@.wf()
    }

    /// A pool that may open up to `capacity` connections and has opened none.
    pub fn new(capacity: usize) -> (pool: Pool)
        ensures
            pool@ == PoolModel::fresh(capacity as nat),
            pool@.wf(),
    {
        Pool { capacity, slots: Vec::new(), waiting: Vec::new() }
    }

    /// The lowest idle slot, or the number of slots if none is idle.
    fn find_idle(&self) -> (idle: usize)
        ensures
            idle == self@.first_idle(),
            idle <= self@.slots.len(),
    {
        let mut i: usize = 0;
        while i < self.slots.len()
            invariant
                i <= self.slots.len(),
                first_idle_from(self.slots@, 0) == first_idle_from(self.slots@, i as int),
            decreases self.slots.len() - i,
        {
            if self.slots[i].is_none() {
                return i;
            }
            i += 1;
        }
        i
    }

    /// Asks for a connection on behalf of `task`.
    ///
    /// The task gets the idle connection with the lowest slot number; if none
    /// is idle and the pool may still grow, a new slot, whose connection the
    /// caller opens; otherwise the task joins the queue, once, and the answer
    /// is `Blocked`.
    pub fn acquire(&mut self, task: TaskId) -> (outcome: Acquired)
        ensures
            old(self)@.wf(),
            final(self)@.wf(),
            final(self)@ == old(self)@.acquire(task).0,
            outcome == old(self)@.acquire(task).1,
    {
        proof {
            use_type_invariant(&*self);
            lemma_acquire_keeps_wf(self@, task);
            lemma_first_idle_from(self.slots@, 0);
        }
        let idle: usize = self.find_idle();
        let mut taken = Pool::new(0);
        std::mem::swap(self, &mut taken);
        let Pool { capacity, mut slots, mut waiting } = taken;
        let outcome = if idle < slots.len() {
            slots.set(idle, Some(task));
            Acquired::Leased(ConnectionHandle { slot: idle, task })
        } else if slots.len() < capacity {
            let slot: usize = slots.len();
            slots.push(Some(task));
            Acquired::Leased(ConnectionHandle { slot, task })
        } else {
            if position_of(&waiting, task).is_none() {
                waiting.push(task);
            }
            Acquired::Blocked
        };
        *self = Pool { capacity, slots, waiting };
        outcome
    }

    /// Gives the lease `handle` back.
    ///
    /// A handle that names no current lease (a second return of the same
    /// lease, or a slot that was never opened) changes nothing. Otherwise
    /// the connection goes to the task at the head of the queue, which holds
    /// it from then on, or becomes idle if nobody waits.
    pub fn release(&mut self, handle: &ConnectionHandle) -> (outcome: Released)
        ensures
            old(self)@.wf(),
            final(self)@.wf(),
            final(self)@ == old(self)@.release(*handle).0,
            outcome == old(self)@.release(*handle).1,
    {
        proof {
            use_type_invariant(&*self);
            lemma_release_keeps_wf(self@, *handle);
        }
        if !self.holds(handle) {
            return Released::Ignored;
        }
        let mut taken = Pool::new(0);
        std::mem::swap(self, &mut taken);
        let Pool { capacity, mut slots, mut waiting } = taken;
        let outcome = if waiting.len() > 0 {
            assert(waiting@.remove(0) =~= waiting@.drop_first());
            let next: TaskId = waiting.remove(0);
            slots.set(handle.slot, Some(next));
            Released::HandedOver(ConnectionHandle { slot: handle.slot, task: next })
        } else {
            slots.set(handle.slot, None);
            Released::Idle
        };
        *self = Pool { capacity, slots, waiting };
        outcome
    }

    /// Tells the pool that `task` will wait no longer.
    ///
    /// If the task is queued it leaves the queue, the rest of the pool stays
    /// as it is, and the answer is the error that its request ends with. If
    /// it is not queued, because a release served it or it never waited,
    /// nothing changes and the answer is `Ok`.
    pub fn time_out(&mut self, task: TaskId) -> (outcome: Result<(), PoolError>)
        ensures
            old(self)@.wf(),
            final(self)@.wf(),
            final(self)@ == old(self)@.time_out(task).0,
            outcome == old(self)@.time_out(task).1,
    {
        proof {
            use_type_invariant(&*self);
            lemma_time_out_keeps_wf(self@, task);
        }
        match position_of(&self.waiting, task) {
            None => Ok(()),
            Some(at) => {
                let mut taken = Pool::new(0);
                std::mem::swap(self, &mut taken);
                let Pool { capacity, slots, mut waiting } = taken;
                assert(waiting@.contains(task));
                assert(waiting@.index_of(task) == at);
                waiting.remove(at);
                *self = Pool { capacity, slots, waiting };
                Err(PoolError::Exhausted)
            },
        }
    }

    /// Asks for a connection without waiting: a task that would be queued
    /// fails at once with `Exhausted` and leaves the queue.
    pub fn try_acquire(&mut self, task: TaskId) -> (outcome: Result<ConnectionHandle, PoolError>)
        ensures
            old(self)@.wf(),
            final(self)@.wf(),
            final(self)@ == old(self)@.try_acquire(task).0,
            outcome == old(self)@.try_acquire(task).1,
    {
        match self.acquire(task) {
            Acquired::Leased(handle) => Ok(handle),
            Acquired::Blocked => {
                let _ = self.time_out(task);
                Err(PoolError::Exhausted)
            },
        }
    }

    /// The largest number of connections that the pool will open.
    pub fn capacity(&self) -> (capacity: usize)
        ensures
            capacity == self@.capacity,
    {
        self.capacity
    }

    /// The number of connections opened so far.
    pub fn opened(&self) -> (opened: usize)
        ensures
            opened == self@.opened(),
            opened <= self@.capacity,
    {
        proof {
            use_type_invariant(self);
        }
        self.slots.len()
    }

    /// The number of connections that are lent out.
    pub fn leased_count(&self) -> (count: usize)
        ensures
            count == self@.leased_count(),
            count <= self@.opened(),
    {
        let mut count: usize = 0;
        let mut i: usize = 0;
        assert(self.slots@.take(0) =~= Seq::empty());
        while i < self.slots.len()
            invariant
                i <= self.slots.len(),
                count <= i,
                count == count_leased(self.slots@.take(i as int)),
            decreases self.slots.len() - i,
        {
            assert(self.slots@.take(i + 1).drop_last() =~= self.slots@.take(i as int));
            if self.slots[i].is_some() {
                count += 1;
            }
            i += 1;
        }
        assert(self.slots@.take(self.slots.len() as int) =~= self.slots@);
        count
    }

    /// The number of opened connections that are idle.
    pub fn idle_count(&self) -> (count: usize)
        ensures
            count == self@.idle_count(),
            count + self@.leased_count() == self@.opened(),
    {
        let leased: usize = self.leased_count();
        self.slots.len() - leased
    }

    /// The number of tasks that wait for a connection.
    pub fn waiting_count(&self) -> (count: usize)
        ensures
            count == self@.waiting.len(),
    {
        self.waiting.len()
    }

    /// Whether `task` waits for a connection.
    pub fn is_waiting(&self, task: TaskId) -> (queued: bool)
        ensures
            queued == self@.waiting.contains(task),
    {
        position_of(&self.waiting, task).is_some()
    }

    /// Whether `handle` names a lease that is current.
    pub fn holds(&self, handle: &ConnectionHandle) -> (current: bool)
        ensures
            current == self@.holds(*handle),
    {
        handle.slot < self.slots.len() && match self.slots[handle.slot] {
            Some(owner) => owner == handle.task,
            None => false,
        }
    }

    /// The lease that `task` holds, if it holds one. A task that was queued
    /// finds here the lease that a release handed to it.
    pub fn lease_of(&self, task: TaskId) -> (lease: Option<ConnectionHandle>)
        ensures
            lease == self@.lease_of(task),
            lease matches Some(handle) ==> self@.holds(handle) && handle.task == task,
            lease is None ==> forall|slot: int|
                0 <= slot < self@.slots.len() ==> (#[trigger] self@.slots[slot]) != Some(task),
    {
        proof {
            lemma_first_lent_from(self.slots@, task, 0);
        }
        let mut i: usize = 0;
        while i < self.slots.len()
            invariant
                i <= self.slots.len(),
                first_lent_from(self.slots@, task, 0) == first_lent_from(self.slots@, task, i as int),
            decreases self.slots.len() - i,
        {
            let lent = match self.slots[i] {
                Some(owner) => owner == task,
                None => false,
            };
            if lent {
                return Some(ConnectionHandle { slot: i, task });
            }
            i += 1;
        }
        None
    }

    /// Whether every connection is lent out and no further one may be
    /// opened, so that a request would have to wait.
    pub fn is_saturated(&self) -> (full: bool)
        ensures
            full == self@.saturated(),
    {
        proof {
            use_type_invariant(self);
            lemma_first_idle_from(self.slots@, 0);
        }
        let idle: usize = self.find_idle();
        assert(idle < self.slots.len() ==> self.slots@[idle as int] is None);
        self.slots.len() == self.capacity && idle == self.slots.len()
    }
}

} // verus!
