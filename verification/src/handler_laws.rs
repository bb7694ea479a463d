//! What holds of every request: when it succeeds, what it leaves behind, and
//! that a user who was created is there to be listed.

use vstd::prelude::*;
use crate::handlers::{created, listed, HandlerError};
use crate::model::{NewUserView, UserView};
use crate::pool::{PoolError, PoolModel, TaskId};
use crate::pool_laws::{lemma_borrow_and_return, lemma_unserved_request_is_exhausted};
use crate::store::{lemma_insert_adds_one_fresh_row, lemma_insert_keeps_wf, StoreError, TableModel};

verus! {

/// A creation request succeeds exactly when a connection can be had and the
/// store has an identifier left. It fails with `Exhausted` exactly when every
/// connection is lent out, and with the store's refusal exactly when a
/// connection was had and no identifier is left. A failed request leaves the
/// relation as it was.
pub proof fn lemma_create_succeeds_when_it_can(
    pool: PoolModel,
    table: TableModel,
    task: TaskId,
    input: NewUserView,
)
    requires
        pool.wf(),
        table.wf(),
    ensures
        created(pool, table, task, input).0.wf(),
        created(pool, table, task, input).1.wf(),
        created(pool, table, task, input).2 is Ok <==> !pool.saturated() && table.issued < i32::MAX,
        created(pool, table, task, input).2 == Err::<UserView, HandlerError>(
            HandlerError::Pool(PoolError::Exhausted),
        ) <==> pool.saturated(),
        created(pool, table, task, input).2 == Err::<UserView, HandlerError>(
            HandlerError::Store(StoreError::ConstraintViolation),
        ) <==> !pool.saturated() && table.issued == i32::MAX,
        created(pool, table, task, input).2 is Err ==> created(pool, table, task, input).1 == table,
{
    lemma_insert_keeps_wf(table, input);
    if pool.saturated() {
        lemma_unserved_request_is_exhausted(pool, task);
        crate::pool::lemma_acquire_keeps_wf(pool, task);
        crate::pool::lemma_time_out_keeps_wf(pool.acquire(task).0, task);
    } else {
        lemma_borrow_and_return(pool, task);
    }
}

/// A listing request succeeds exactly when a connection can be had, and then
/// answers every row of the relation, in the relation's order; for an empty
/// relation that is the empty list. It fails with `Exhausted` exactly when
/// every connection is lent out.
pub proof fn lemma_list_succeeds_when_it_can(pool: PoolModel, table: TableModel, task: TaskId)
    requires
        pool.wf(),
    ensures
        listed(pool, table, task).0.wf(),
        !pool.saturated() ==> listed(pool, table, task).1 == Ok::<Seq<UserView>, HandlerError>(
            table.rows,
        ),
        pool.saturated() ==> listed(pool, table, task).1 == Err::<Seq<UserView>, HandlerError>(
            HandlerError::Pool(PoolError::Exhausted),
        ),
{
    if pool.saturated() {
        lemma_unserved_request_is_exhausted(pool, task);
        crate::pool::lemma_acquire_keeps_wf(pool, task);
        crate::pool::lemma_time_out_keeps_wf(pool.acquire(task).0, task);
    } else {
        lemma_borrow_and_return(pool, task);
    }
}

/// A listing request does not keep its connection, however it ends: after
/// it exactly as many leases are out as before. A request that got a
/// connection leaves nobody waiting and at least one connection idle; a
/// request that got none leaves the pool as it was, if its task was not
/// queued before.
pub proof fn lemma_listing_returns_its_lease(pool: PoolModel, table: TableModel, task: TaskId)
    requires
        pool.wf(),
    ensures
        listed(pool, table, task).0.leased_count() == pool.leased_count(),
        !pool.saturated() ==> !listed(pool, table, task).0.saturated() && listed(
            pool,
            table,
            task,
        ).0.waiting.len() == 0,
        pool.saturated() && !pool.waiting.contains(task) ==> listed(pool, table, task).0 == pool,
{
    if pool.saturated() {
        lemma_unserved_request_is_exhausted(pool, task);
    } else {
        lemma_borrow_and_return(pool, task);
    }
}

/// A creation request does not keep its connection either, whether the store
/// took the row or refused it: it leaves the pool exactly as a listing
/// request by the same task would.
pub proof fn lemma_creation_returns_its_lease(
    pool: PoolModel,
    table: TableModel,
    task: TaskId,
    input: NewUserView,
)
    requires
        pool.wf(),
    ensures
        created(pool, table, task, input).0 == listed(pool, table, task).0,
        created(pool, table, task, input).0.leased_count() == pool.leased_count(),
{
    lemma_listing_returns_its_lease(pool, table, task);
}

/// A user who was created is listed: when a creation request has succeeded,
/// a listing request that follows it succeeds too, and among its rows there
/// is exactly one with the new user's identifier. That row carries the name
/// and the email of the payload, and its identifier was carried by no row
/// before the creation.
pub proof fn lemma_created_user_is_listed_once(
    pool: PoolModel,
    table: TableModel,
    creator: TaskId,
    input: NewUserView,
    reader: TaskId,
)
    requires
        pool.wf(),
        table.wf(),
        created(pool, table, creator, input).2 is Ok,
    ensures
        ({
            let user = created(pool, table, creator, input).2->Ok_0;
            let listing = listed(
                created(pool, table, creator, input).0,
                created(pool, table, creator, input).1,
                reader,
            ).1;
            &&& user.name == input.name
            &&& user.email == input.email
            &&& !table.has_id(user.id)
            &&& listing is Ok
            &&& listing->Ok_0 == table.rows.push(user)
            &&& exists|at: int|
                {
                    &&& 0 <= at < listing->Ok_0.len()
                    &&& #[trigger] listing->Ok_0[at] == user
                    &&& forall|other: int|
                        0 <= other < listing->Ok_0.len() && (#[trigger] listing->Ok_0[other]).id
                            == user.id ==> other == at
                }
        }),
{
    lemma_create_succeeds_when_it_can(pool, table, creator, input);
    lemma_creation_returns_its_lease(pool, table, creator, input);
    lemma_listing_returns_its_lease(pool, table, creator);
    lemma_insert_adds_one_fresh_row(table, input);
    let pool_after = created(pool, table, creator, input).0;
    let table_after = created(pool, table, creator, input).1;
    lemma_list_succeeds_when_it_can(pool_after, table_after, reader);
    let user = created(pool, table, creator, input).2->Ok_0;
    let rows = listed(pool_after, table_after, reader).1->Ok_0;
    let at = table.rows.len() as int;
    assert(rows[at] == user);
}

} // verus!
