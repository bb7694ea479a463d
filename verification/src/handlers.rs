//! The two requests of the service: create a user, and list the users.
//!
//! A request borrows one pooled connection, runs one statement on it, gives
//! the connection back and answers. Waiting for a connection and running the
//! statement are the caller's work; what is decided in between is decided
//! here, one stage at a time:
//!
//! 1. `CreateUser::begin` or `ListUsers::begin`: ask the pool for a lease.
//! 2. `on_acquire`: with a lease, run the statement under it; without one,
//!    answer with the failure.
//! 3. `Insertion::on_result` or `Listing::on_result`: give back the lease
//!    that `Finished::release` holds, closing its connection first if
//!    `Finished::discard` says so, then answer with `Finished::outcome`.
//!
//! Whatever the store answered, stage 3 hands out the lease of stage 2, so a
//! request that got a connection always returns it before it answers. The
//! stages carry the lease as the caller has it: a bare `ConnectionHandle`,
//! or a value of the caller's that also owns the physical connection.
//!
//! `create_user` and `get_users` run the stages against the in-memory
//! relation and a pool that nobody else touches meanwhile, so a request that
//! finds the pool used up fails at once.

use vstd::prelude::*;
use crate::handler_laws::{
    lemma_create_succeeds_when_it_can, lemma_creation_returns_its_lease,
    lemma_list_succeeds_when_it_can, lemma_listing_returns_its_lease,
};
use crate::model::{
    row_outcome, rows_outcome, views, NewUser, NewUserView, User, UserInput, UserView,
};
use crate::pool::{Pool, PoolError, PoolModel, TaskId};
use crate::store::{StoreError, TableModel, UserTable};

verus! {

/// Why a request failed.
#[derive(Clone, Copy, Debug, PartialEq, Eq, Structural)]
pub enum HandlerError {
    /// No connection could be had.
    Pool(PoolError),
    /// The statement failed.
    Store(StoreError),
    /// The body of the request did not have the shape of a creation payload.
    MalformedPayload,
}

/// The status of a successful answer.
pub const STATUS_OK: u16 = 200;

/// The status of an answer to a request whose body was malformed.
pub const STATUS_BAD_REQUEST: u16 = 400;

/// The status of an answer to a request that the pool or the store failed.
pub const STATUS_INTERNAL_ERROR: u16 = 500;

/// The status that goes with an outcome.
pub open spec fn status_for<T>(outcome: Result<T, HandlerError>) -> u16 {
    match outcome {
        Ok(_) => STATUS_OK,
        Err(HandlerError::MalformedPayload) => STATUS_BAD_REQUEST,
        Err(HandlerError::Pool(_)) => STATUS_INTERNAL_ERROR,
        Err(HandlerError::Store(_)) => STATUS_INTERNAL_ERROR,
    }
}

/// The status to answer with: success for a result, "bad request" for a
/// malformed body, and one and the same failure status whether the pool or
/// the store failed.
pub fn status_of<T>(outcome: &Result<T, HandlerError>) -> (status: u16)
    ensures
        status == status_for(*outcome),
{
    match outcome {
        Ok(_) => STATUS_OK,
        Err(HandlerError::MalformedPayload) => STATUS_BAD_REQUEST,
        Err(HandlerError::Pool(_)) => STATUS_INTERNAL_ERROR,
        Err(HandlerError::Store(_)) => STATUS_INTERNAL_ERROR,
    }
}

/// How a failed statement is reported to the caller of a request.
pub open spec fn surfaced<T>(answer: Result<T, StoreError>) -> Result<T, HandlerError> {
    match answer {
        Ok(value) => Ok(value),
        Err(error) => Err(HandlerError::Store(error)),
    }
}

/// Whether the connection on which the store answered `answer` is fit to be
/// lent again: it is, unless the store was lost on it.
pub open spec fn reusable<T>(answer: Result<T, StoreError>) -> bool {
    !(answer matches Err(StoreError::ConnectivityLoss))
}

/// The end of a request that held a lease: the lease to give back, whether
/// its physical connection is to be closed first, and then the answer.
#[derive(Debug)]
pub struct Finished<L, T> {
    /// The lease to give back.
    pub release: L,
    /// Whether the store was lost on the connection, so that it must be
    /// closed and the next holder of the slot opens a new one.
    pub discard: bool,
    /// The answer to the request.
    pub outcome: Result<T, HandlerError>,
}

/// Whether `error` says that the store was lost.
fn lost_connection(error: &StoreError) -> (lost: bool)
    ensures
        lost == (*error == StoreError::ConnectivityLoss),
{
    match error {
        StoreError::ConnectivityLoss => true,
        StoreError::ConstraintViolation => false,
    }
}

/// A creation request that waits for a connection.
#[derive(Debug)]
pub struct CreateUser {
    pub new_user: NewUser,
}

/// A creation request that holds `lease` and waits for the store's answer to
/// its insert.
#[derive(Debug)]
pub struct Insertion<L> {
    pub lease: L,
}

/// A listing request that waits for a connection.
#[derive(Debug)]
pub struct ListUsers {}

/// A listing request that holds `lease` and waits for the store's answer to
/// its query.
#[derive(Debug)]
pub struct Listing<L> {
    pub lease: L,
}

impl CreateUser {
    /// Starts a creation request: the row to insert is the payload, field by
    /// field.
    pub fn begin(input: UserInput) -> (request: CreateUser)
        ensures
            request.new_user@ == input@,
    {
        CreateUser { new_user: NewUser::from_input(input) }
    }

    /// Takes the pool's answer. With a lease, the row is to be inserted
    /// under it; without one the request is over and nothing is to be given
    /// back.
    pub fn on_acquire<L>(self, lease: Result<L, PoolError>) -> (next: Result<
        (NewUser, Insertion<L>),
        HandlerError,
    >)
        ensures
            match lease {
                Ok(held) => next == Ok::<(NewUser, Insertion<L>), HandlerError>(
                    (self.new_user, Insertion { lease: held }),
                ),
                Err(error) => next == Err::<(NewUser, Insertion<L>), HandlerError>(
                    HandlerError::Pool(error),
                ),
            },
    {
        match lease {
            Ok(held) => Ok((self.new_user, Insertion { lease: held })),
            Err(error) => Err(HandlerError::Pool(error)),
        }
    }
}

impl<L> Insertion<L> {
    /// Takes the store's answer to the insert. The lease goes back either
    /// way; the answer is the stored row, or the store's failure.
    pub fn on_result(self, answer: Result<User, StoreError>) -> (end: Finished<L, User>)
        ensures
            end.release == self.lease,
            end.discard == !reusable(answer),
            end.outcome == surfaced(answer),
    {
        match answer {
            Ok(user) => Finished { release: self.lease, discard: false, outcome: Ok(user) },
            Err(error) => Finished {
                release: self.lease,
                discard: lost_connection(&error),
                outcome: Err(HandlerError::Store(error)),
            },
        }
    }
}

impl ListUsers {
    /// Starts a listing request.
    pub fn begin() -> (request: ListUsers)
        ensures
            request == (ListUsers {  }),
    {
        ListUsers {  }
    }

    /// Takes the pool's answer. With a lease, all rows are to be read under
    /// it; without one the request is over and nothing is to be given back.
    pub fn on_acquire<L>(self, lease: Result<L, PoolError>) -> (next: Result<
        Listing<L>,
        HandlerError,
    >)
        ensures
            match lease {
                Ok(held) => next == Ok::<Listing<L>, HandlerError>(Listing { lease: held }),
                Err(error) => next == Err::<Listing<L>, HandlerError>(HandlerError::Pool(error)),
            },
    {
        match lease {
            Ok(held) => Ok(Listing { lease: held }),
            Err(error) => Err(HandlerError::Pool(error)),
        }
    }
}

impl<L> Listing<L> {
    /// Takes the store's answer to the query. The lease goes back either
    /// way; the answer is the rows as the store gave them, in its order, or
    /// the store's failure.
    pub fn on_result(self, answer: Result<Vec<User>, StoreError>) -> (end: Finished<L, Vec<User>>)
        ensures
            end.release == self.lease,
            end.discard == !reusable(answer),
            end.outcome == surfaced(answer),
    {
        match answer {
            Ok(rows) => Finished { release: self.lease, discard: false, outcome: Ok(rows) },
            Err(error) => Finished {
                release: self.lease,
                discard: lost_connection(&error),
                outcome: Err(HandlerError::Store(error)),
            },
        }
    }
}

/// What a creation request does to the pool and the relation, and what it
/// answers, when nothing else happens meanwhile.
pub open spec fn created(pool: PoolModel, table: TableModel, task: TaskId, input: NewUserView) -> (
    PoolModel,
    TableModel,
    Result<UserView, HandlerError>,
) {
    match pool.try_acquire(task).1 {
        Err(error) => (pool.try_acquire(task).0, table, Err(HandlerError::Pool(error))),
        Ok(handle) => (
            pool.try_acquire(task).0.release(handle).0,
            table.insert(input).0,
            surfaced(table.insert(input).1),
        ),
    }
}

/// What a listing request does to the pool, and what it answers, when
/// nothing else happens meanwhile.
pub open spec fn listed(pool: PoolModel, table: TableModel, task: TaskId) -> (
    PoolModel,
    Result<Seq<UserView>, HandlerError>,
) {
    match pool.try_acquire(task).1 {
        Err(error) => (pool.try_acquire(task).0, Err(HandlerError::Pool(error))),
        Ok(handle) => (pool.try_acquire(task).0.release(handle).0, Ok(table.rows)),
    }
}

/// Creates a user: borrows a connection for `task`, inserts one row built
/// from `input`, gives the connection back and answers the stored row.
///
/// The request fails with `Pool(Exhausted)` when every connection is lent
/// out, and the relation is then untouched; it fails with the store's error
/// when the insert is refused, and then no row was added either.
pub fn create_user(pool: &mut Pool, table: &mut UserTable, task: TaskId, input: UserInput) -> (outcome:
    Result<User, HandlerError>)
    ensures
        old(pool)@.wf(),
        old(table)@.wf(),
        final(pool)@.wf(),
        final(table)@.wf(),
        (final(pool)@, final(table)@, row_outcome(outcome)) == created(
            old(pool)@,
            old(table)@,
            task,
            input@,
        ),
        outcome is Ok <==> !old(pool)@.saturated() && old(table)@.issued < i32::MAX,
        outcome matches Ok(user) ==> {
            &&& user@ == input@.with_id(old(table)@.issued + 1)
            &&& final(table)@.rows == old(table)@.rows.push(user@)
        },
        outcome matches Err(error) ==> {
            &&& final(table)@ == old(table)@
            &&& error == HandlerError::Pool(PoolError::Exhausted) <==> old(pool)@.saturated()
            &&& error == HandlerError::Store(StoreError::ConstraintViolation)
                <==> !old(pool)@.saturated()
        },
        final(pool)@.leased_count() == old(pool)@.leased_count(),
{
    proof {
        use_type_invariant(&*table);
        use_type_invariant(&*pool);
        lemma_create_succeeds_when_it_can(pool@, table@, task, input@);
        lemma_creation_returns_its_lease(pool@, table@, task, input@);
    }
    let request = CreateUser::begin(input);
    let lease = pool.try_acquire(task);
    match request.on_acquire(lease) {
        Err(error) => Err(error),
        Ok((new_user, insertion)) => {
            let answer = table.insert(new_user);
            let end = insertion.on_result(answer);
            let _ = pool.release(&end.release);
            end.outcome
        },
    }
}

/// Lists the users: borrows a connection for `task`, reads every row, gives
/// the connection back and answers the rows in the store's order.
///
/// The request fails with `Pool(Exhausted)` when every connection is lent
/// out. An empty relation is answered with an empty list.
pub fn get_users(pool: &mut Pool, table: &UserTable, task: TaskId) -> (outcome: Result<
    Vec<User>,
    HandlerError,
>)
    ensures
        old(pool)@.wf(),
        table@.wf(),
        final(pool)@.wf(),
        (final(pool)@, rows_outcome(outcome)) == listed(old(pool)@, table@, task),
        outcome is Ok <==> !old(pool)@.saturated(),
        outcome matches Ok(rows) ==> views(rows@) == table@.rows,
        outcome matches Err(error) ==> error == HandlerError::Pool(PoolError::Exhausted),
        final(pool)@.leased_count() == old(pool)@.leased_count(),
{
    proof {
        use_type_invariant(table);
        use_type_invariant(&*pool);
        lemma_list_succeeds_when_it_can(pool@, table@, task);
        lemma_listing_returns_its_lease(pool@, table@, task);
    }
    let request = ListUsers::begin();
    let lease = pool.try_acquire(task);
    match request.on_acquire(lease) {
        Err(error) => Err(error),
        Ok(listing) => {
            let answer = Ok(table.load_all());
            let end = listing.on_result(answer);
            let _ = pool.release(&end.release);
            end.outcome
        },
    }
}

} // verus!
