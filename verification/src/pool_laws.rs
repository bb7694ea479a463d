//! What holds of every run of the pool: how a burst of requests is split
//! between leases and the queue, how releases drain the queue in order, and
//! how a request that is never served ends.

use vstd::prelude::*;
use crate::pool::{
    count_leased, first_idle_from, lemma_acquire_keeps_wf, lemma_count_bounded, lemma_count_full,
    lemma_count_push, lemma_count_update, lemma_first_idle_from, lemma_release_keeps_wf, Acquired,
    ConnectionHandle, PoolError, PoolModel, Released, TaskId,
};

verus! {

/// The pool after the tasks of `tasks` have asked for a connection, one after
/// the other.
pub open spec fn after_requests(pool: PoolModel, tasks: Seq<TaskId>) -> PoolModel
    decreases tasks.len(),
{
    if tasks.len() == 0 {
        pool
    } else {
        after_requests(pool, tasks.drop_last()).acquire(tasks.last()).0
    }
}

/// The pool after the leases of `handles` have been given back, one after the
/// other.
pub open spec fn after_releases(pool: PoolModel, handles: Seq<ConnectionHandle>) -> PoolModel
    decreases handles.len(),
{
    if handles.len() == 0 {
        pool
    } else {
        after_releases(pool, handles.drop_last()).release(handles.last()).0
    }
}

/// Each lease of `handles` is current at the moment it is given back.
pub open spec fn each_current(pool: PoolModel, handles: Seq<ConnectionHandle>) -> bool {
    forall|k: int|
        0 <= k < handles.len() ==> (#[trigger] after_releases(pool, handles.take(k))).holds(
            handles[k],
        )
}

/// The slots of a pool in which the tasks of `tasks` hold one connection
/// each, in order.
pub open spec fn lent_to(tasks: Seq<TaskId>) -> Seq<Option<TaskId>> {
    tasks.map_values(|task: TaskId| Some(task))
}

/// The number of requests that are still to be completed by a release: the
/// leases that are out and the tasks that wait for one.
pub open spec fn outstanding(pool: PoolModel) -> nat {
    pool.leased_count() + pool.waiting.len()
}

proof fn lemma_lent_to_is_full(tasks: Seq<TaskId>)
    ensures
        first_idle_from(lent_to(tasks), 0) == tasks.len(),
        count_leased(lent_to(tasks)) == tasks.len(),
{
    let slots = lent_to(tasks);
    lemma_first_idle_from(slots, 0);
    lemma_count_full(slots);
    let idle = first_idle_from(slots, 0);
    if idle < slots.len() {
        assert(slots[idle] is Some);
    }
}

/// A burst of requests on a new pool: the first `capacity` tasks hold the
/// slots in the order in which they asked, and the others wait in that order.
pub proof fn lemma_burst_fills_and_queues(capacity: nat, tasks: Seq<TaskId>)
    requires
        capacity <= usize::MAX,
        tasks.no_duplicates(),
    ensures
        after_requests(PoolModel::fresh(capacity), tasks).wf(),
        tasks.len() <= capacity ==> after_requests(PoolModel::fresh(capacity), tasks)
            == (PoolModel { capacity, slots: lent_to(tasks), waiting: Seq::empty() }),
        tasks.len() > capacity ==> after_requests(PoolModel::fresh(capacity), tasks) == (PoolModel {
            capacity,
            slots: lent_to(tasks.take(capacity as int)),
            waiting: tasks.skip(capacity as int),
        }),
    decreases tasks.len(),
{
    let fresh = PoolModel::fresh(capacity);
    if tasks.len() == 0 {
        assert(lent_to(tasks) =~= Seq::empty());
    } else {
        let earlier = tasks.drop_last();
        let task = tasks.last();
        let before = after_requests(fresh, earlier);
        assert(earlier.no_duplicates());
        lemma_burst_fills_and_queues(capacity, earlier);
        lemma_acquire_keeps_wf(before, task);
        if tasks.len() <= capacity {
            lemma_lent_to_is_full(earlier);
            assert(lent_to(earlier).push(Some(task)) =~= lent_to(tasks));
        } else {
            let holders = tasks.take(capacity as int);
            lemma_lent_to_is_full(holders);
            if earlier.len() <= capacity {
                assert(earlier =~= holders);
                assert(Seq::<TaskId>::empty().push(task) =~= tasks.skip(capacity as int));
            } else {
                assert(earlier.take(capacity as int) =~= holders);
                let queue = earlier.skip(capacity as int);
                if queue.contains(task) {
                    let at = choose|i: int| 0 <= i < queue.len() && queue[i] == task;
                    assert(tasks[at + capacity] == tasks[tasks.len() - 1]);
                }
                assert(queue.push(task) =~= tasks.skip(capacity as int));
            }
        }
    }
}

/// Under a burst of requests on a new pool, exactly the first `capacity`
/// requests get a lease at once and every later one is blocked; when more
/// tasks asked than the pool holds, every connection is lent out and none is
/// idle.
pub proof fn lemma_capacity_many_succeed_at_once(capacity: nat, tasks: Seq<TaskId>, k: int)
    requires
        capacity <= usize::MAX,
        tasks.no_duplicates(),
        0 <= k < tasks.len(),
    ensures
        k < capacity ==> after_requests(PoolModel::fresh(capacity), tasks.take(k)).acquire(
            tasks[k],
        ).1 == Acquired::Leased(ConnectionHandle { slot: k as usize, task: tasks[k] }),
        k >= capacity ==> after_requests(PoolModel::fresh(capacity), tasks.take(k)).acquire(
            tasks[k],
        ).1 == Acquired::Blocked,
        tasks.len() >= capacity ==> {
            let busy = after_requests(PoolModel::fresh(capacity), tasks);
            &&& busy.leased_count() == capacity
            &&& busy.idle_count() == 0
            &&& busy.waiting.len() == tasks.len() - capacity
        },
{
    let earlier = tasks.take(k);
    assert(earlier.no_duplicates());
    lemma_burst_fills_and_queues(capacity, earlier);
    lemma_burst_fills_and_queues(capacity, tasks);
    if k < capacity {
        lemma_lent_to_is_full(earlier);
    } else {
        lemma_lent_to_is_full(earlier.take(capacity as int));
    }
    if tasks.len() >= capacity {
        lemma_lent_to_is_full(tasks.take(capacity as int));
        if tasks.len() == capacity {
            assert(tasks.take(capacity as int) =~= tasks);
        }
    }
}

/// Giving back a current lease completes exactly one outstanding request and
/// opens or closes no connection: either the task at the head of the queue
/// gets the connection, or the connection becomes idle.
pub proof fn lemma_release_completes_one(pool: PoolModel, handle: ConnectionHandle)
    requires
        pool.wf(),
        pool.holds(handle),
    ensures
        pool.release(handle).0.wf(),
        pool.release(handle).0.opened() == pool.opened(),
        outstanding(pool.release(handle).0) + 1 == outstanding(pool),
        pool.waiting.len() > 0 ==> {
            &&& pool.release(handle).1 == Released::HandedOver(
                ConnectionHandle { slot: handle.slot, task: pool.waiting[0] },
            )
            &&& pool.release(handle).0.holds(
                ConnectionHandle { slot: handle.slot, task: pool.waiting[0] },
            )
            &&& pool.release(handle).0.waiting == pool.waiting.drop_first()
            &&& pool.release(handle).0.leased_count() == pool.leased_count()
        },
        pool.waiting.len() == 0 ==> {
            &&& pool.release(handle).1 == Released::Idle
            &&& pool.release(handle).0.idle_count() == pool.idle_count() + 1
        },
{
    lemma_release_keeps_wf(pool, handle);
    lemma_count_bounded(pool.slots);
    if pool.waiting.len() > 0 {
        lemma_count_update(pool.slots, handle.slot as int, Some(pool.waiting[0]));
    } else {
        lemma_count_update(pool.slots, handle.slot as int, None);
    }
}

proof fn lemma_releases_split(pool: PoolModel, handles: Seq<ConnectionHandle>)
    requires
        handles.len() > 0,
        each_current(pool, handles),
    ensures
        each_current(pool, handles.drop_last()),
        after_releases(pool, handles.drop_last()).holds(handles.last()),
{
    let earlier = handles.drop_last();
    assert(handles.take(handles.len() - 1) =~= earlier);
    assert forall|k: int| 0 <= k < earlier.len() implies (#[trigger] after_releases(
        pool,
        earlier.take(k),
    )).holds(earlier[k]) by {
        assert(earlier.take(k) =~= handles.take(k));
        assert(after_releases(pool, handles.take(k)).holds(handles[k]));
    }
}

/// Releases complete outstanding requests one by one: after `n` returns of
/// current leases, `n` fewer are outstanding, and the pool has as many
/// connections as before.
pub proof fn lemma_releases_count_down(pool: PoolModel, handles: Seq<ConnectionHandle>)
    requires
        pool.wf(),
        each_current(pool, handles),
    ensures
        after_releases(pool, handles).wf(),
        after_releases(pool, handles).opened() == pool.opened(),
        outstanding(after_releases(pool, handles)) + handles.len() == outstanding(pool),
    decreases handles.len(),
{
    if handles.len() > 0 {
        lemma_releases_split(pool, handles);
        lemma_releases_count_down(pool, handles.drop_last());
        lemma_release_completes_one(after_releases(pool, handles.drop_last()), handles.last());
    }
}

/// No deadlock: while tasks wait, the returns serve them in the order in
/// which they queued. The return number `k` hands its connection to the task
/// that was queued at place `k`.
pub proof fn lemma_queue_served_in_order(
    pool: PoolModel,
    handles: Seq<ConnectionHandle>,
    k: int,
)
    requires
        pool.wf(),
        each_current(pool, handles),
        0 <= k < handles.len(),
        k < pool.waiting.len(),
    ensures
        after_releases(pool, handles.take(k)).waiting == pool.waiting.skip(k),
        after_releases(pool, handles.take(k)).release(handles[k]).1 == Released::HandedOver(
            ConnectionHandle { slot: handles[k].slot, task: pool.waiting[k] },
        ),
    decreases k,
{
    let before = after_releases(pool, handles.take(k));
    assert(before.holds(handles[k]));
    if k == 0 {
        assert(handles.take(0) =~= Seq::empty());
        assert(pool.waiting.skip(0) =~= pool.waiting);
    } else {
        lemma_queue_served_in_order(pool, handles, k - 1);
        let earlier = handles.take(k - 1);
        assert(handles.take(k).drop_last() =~= earlier);
        assert(handles.take(k).last() == handles[k - 1]);
        assert(pool.waiting.skip(k - 1).drop_first() =~= pool.waiting.skip(k));
    }
}

/// No lease is lost: once every outstanding request has been completed by
/// the return of a current lease, nobody waits, nothing is lent out, and
/// every connection that was opened is idle. After a burst that used the
/// whole pool that is `capacity` idle connections.
pub proof fn lemma_all_returned_all_idle(pool: PoolModel, handles: Seq<ConnectionHandle>)
    requires
        pool.wf(),
        each_current(pool, handles),
        handles.len() == outstanding(pool),
    ensures
        after_releases(pool, handles).waiting.len() == 0,
        after_releases(pool, handles).leased_count() == 0,
        after_releases(pool, handles).idle_count() == pool.opened(),
        pool.opened() == pool.capacity ==> after_releases(pool, handles).idle_count()
            == pool.capacity,
{
    lemma_releases_count_down(pool, handles);
}

/// A burst from start to end: when more tasks ask a new pool than it holds
/// and every lease is given back in time, by the task that holds it, then
/// each queued task is handed a connection, in the order in which the tasks
/// asked, and in the end every connection of the pool is idle.
pub proof fn lemma_burst_is_served_and_returned(
    capacity: nat,
    tasks: Seq<TaskId>,
    handles: Seq<ConnectionHandle>,
    k: int,
)
    requires
        capacity <= usize::MAX,
        tasks.no_duplicates(),
        tasks.len() > capacity,
        handles.len() == tasks.len(),
        each_current(after_requests(PoolModel::fresh(capacity), tasks), handles),
        0 <= k < tasks.len() - capacity,
    ensures
        ({
            let busy = after_requests(PoolModel::fresh(capacity), tasks);
            &&& after_releases(busy, handles.take(k)).release(handles[k]).1
                == Released::HandedOver(
                ConnectionHandle { slot: handles[k].slot, task: tasks[capacity + k] },
            )
            &&& after_releases(busy, handles).waiting.len() == 0
            &&& after_releases(busy, handles).leased_count() == 0
            &&& after_releases(busy, handles).idle_count() == capacity
        }),
{
    let busy = after_requests(PoolModel::fresh(capacity), tasks);
    lemma_burst_fills_and_queues(capacity, tasks);
    lemma_lent_to_is_full(tasks.take(capacity as int));
    lemma_queue_served_in_order(busy, handles, k);
    lemma_all_returned_all_idle(busy, handles);
}

/// A served task finds its lease: after a release has handed a connection
/// to the task at the head of the queue, that task is no longer queued and
/// holds a lease, which it finds by asking for it.
pub proof fn lemma_served_task_finds_its_lease(pool: PoolModel, handle: ConnectionHandle)
    requires
        pool.wf(),
        pool.holds(handle),
        pool.waiting.len() > 0,
    ensures
        !pool.release(handle).0.waiting.contains(pool.waiting[0]),
        pool.release(handle).0.lease_of(pool.waiting[0]) is Some,
        pool.release(handle).0.holds(pool.release(handle).0.lease_of(pool.waiting[0])->Some_0),
        pool.release(handle).0.time_out(pool.waiting[0]) == (pool.release(handle).0, Ok::<
            (),
            PoolError,
        >(())),
{
    let served = pool.waiting[0];
    let after = pool.release(handle).0;
    crate::pool::lemma_first_lent_from(after.slots, served, 0);
    let found = crate::pool::first_lent_from(after.slots, served, 0);
    if found >= after.slots.len() {
        assert(after.slots[handle.slot as int] == Some(served));
    }
    if after.waiting.contains(served) {
        let at = choose|i: int| 0 <= i < after.waiting.len() && after.waiting[i] == served;
        assert(pool.waiting[at + 1] == pool.waiting[0]);
    }
}

/// A request to a pool whose connections are all lent out is blocked, and if
/// nothing serves it before its patience ends it fails with `Exhausted`. A
/// task that was not queued before leaves the pool exactly as it found it.
pub proof fn lemma_unserved_request_is_exhausted(pool: PoolModel, task: TaskId)
    requires
        pool.wf(),
        pool.saturated(),
    ensures
        pool.acquire(task).1 == Acquired::Blocked,
        pool.acquire(task).0.waiting.contains(task),
        pool.acquire(task).0.time_out(task).1 == Err::<(), PoolError>(PoolError::Exhausted),
        pool.try_acquire(task).1 == Err::<ConnectionHandle, PoolError>(PoolError::Exhausted),
        !pool.waiting.contains(task) ==> pool.acquire(task).0.time_out(task).0 == pool,
        !pool.waiting.contains(task) ==> pool.try_acquire(task).0 == pool,
{
    lemma_first_idle_from(pool.slots, 0);
    let idle = pool.first_idle();
    if idle < pool.slots.len() {
        assert(pool.slots[idle] is Some);
    }
    let queued = pool.acquire(task).0;
    if !pool.waiting.contains(task) {
        let last = pool.waiting.len() as int;
        assert(queued.waiting[last] == task);
        let at = queued.waiting.index_of(task);
        if at < last {
            assert(pool.waiting.contains(pool.waiting[at]));
        }
        assert(queued.waiting.remove(last) =~= pool.waiting);
    }
}

/// A queued task stays queued, in a pool that stays full, whatever other
/// tasks ask for and however many of them give up: only a release or its own
/// timeout ends its wait.
pub proof fn lemma_wait_lasts_until_served(pool: PoolModel, task: TaskId, other: TaskId)
    requires
        pool.wf(),
        pool.waiting.contains(task),
    ensures
        pool.acquire(other).1 == Acquired::Blocked,
        pool.acquire(other).0.waiting.contains(task),
        pool.acquire(other).0.saturated(),
        other != task ==> pool.time_out(other).0.waiting.contains(task),
        other != task ==> pool.time_out(other).0.saturated(),
{
    lemma_first_idle_from(pool.slots, 0);
    let idle = pool.first_idle();
    if idle < pool.slots.len() {
        assert(pool.slots[idle] is Some);
    }
    let place = choose|i: int| 0 <= i < pool.waiting.len() && pool.waiting[i] == task;
    if !pool.waiting.contains(other) {
        assert(pool.acquire(other).0.waiting[place] == task);
    }
    if other != task && pool.waiting.contains(other) {
        let gone = pool.waiting.index_of(other);
        pool.waiting.remove_ensures(gone);
        let shorter = pool.waiting.remove(gone);
        if place < gone {
            assert(shorter[place] == task);
        } else {
            assert(shorter[place - 1] == task);
        }
    }
}

/// Giving the same lease back twice is giving it back once, as long as its
/// task does not also stand at the head of the queue.
pub proof fn lemma_release_is_idempotent(pool: PoolModel, handle: ConnectionHandle)
    requires
        pool.wf(),
        pool.waiting.len() > 0 ==> pool.waiting[0] != handle.task,
    ensures
        pool.release(handle).0.release(handle) == (pool.release(handle).0, Released::Ignored),
{
}

/// Lending and returning keep the books balanced: the leases that are out and
/// the idle connections are together the connections that were opened, which
/// are never more than the pool's capacity.
pub proof fn lemma_counts_balance(pool: PoolModel)
    requires
        pool.wf(),
    ensures
        pool.leased_count() + pool.idle_count() == pool.opened(),
        pool.opened() <= pool.capacity,
        pool.waiting.len() > 0 ==> pool.leased_count() == pool.capacity,
{
    lemma_count_bounded(pool.slots);
    lemma_count_full(pool.slots);
}

/// Borrowing from a pool that is not used up and giving the lease straight
/// back: the request gets a lease at once, and after the return the same
/// number of leases is out as before, nobody waits, and the pool is as it
/// was, except that it may have opened one more connection, which is idle.
pub proof fn lemma_borrow_and_return(pool: PoolModel, task: TaskId)
    requires
        pool.wf(),
        !pool.saturated(),
    ensures
        pool.try_acquire(task).1 is Ok,
        pool.try_acquire(task).0.wf(),
        pool.try_acquire(task).0.holds(pool.try_acquire(task).1->Ok_0),
        ({
            let handle = pool.try_acquire(task).1->Ok_0;
            let after = pool.try_acquire(task).0.release(handle).0;
            &&& after.wf()
            &&& !after.saturated()
            &&& pool.try_acquire(task).0.release(handle).1 == Released::Idle
            &&& after.leased_count() == pool.leased_count()
            &&& after.waiting == pool.waiting
            &&& after.waiting.len() == 0
            &&& after.capacity == pool.capacity
            &&& if pool.idle_count() > 0 {
                after == pool
            } else {
                after.slots == pool.slots.push(None)
            }
        }),
{
    lemma_first_idle_from(pool.slots, 0);
    lemma_count_full(pool.slots);
    lemma_count_bounded(pool.slots);
    lemma_acquire_keeps_wf(pool, task);
    let idle = pool.first_idle();
    let lent = pool.try_acquire(task).0;
    let handle = pool.try_acquire(task).1->Ok_0;
    lemma_release_keeps_wf(lent, handle);
    let after = lent.release(handle).0;
    if idle < pool.slots.len() {
        assert(after.slots =~= pool.slots);
        assert(after.slots[idle] is None);
    } else {
        assert(after.slots =~= pool.slots.push(None));
        lemma_count_push(pool.slots, None);
        assert(after.slots[pool.slots.len() as int] is None);
    }
}

} // verus!
