use record_store::handlers::{
    create_user, get_users, status_of, CreateUser, Finished, HandlerError, Insertion, ListUsers,
    Listing, STATUS_BAD_REQUEST, STATUS_INTERNAL_ERROR, STATUS_OK,
};
use record_store::model::{NewUser, User, UserInput};
use record_store::pool::{ConnectionHandle, Pool, PoolError};
use record_store::store::{StoreError, UserTable};

fn payload(name: &str, email: &str) -> UserInput {
    UserInput { name: name.to_string(), email: email.to_string() }
}

fn stored(id: i32, name: &str, email: &str) -> User {
    User { id, name: name.to_string(), email: email.to_string() }
}

#[test]
fn two_users_are_created_with_ids_one_and_two_and_both_are_listed() {
    let mut pool = Pool::new(2);
    let mut table = UserTable::new();
    let ann = create_user(&mut pool, &mut table, 1, payload("Ann", "ann@x.com"));
    assert_eq!(ann, Ok(stored(1, "Ann", "ann@x.com")));
    let bo = create_user(&mut pool, &mut table, 2, payload("Bo", "bo@x.com"));
    assert_eq!(bo, Ok(stored(2, "Bo", "bo@x.com")));
    let listing = get_users(&mut pool, &table, 3).unwrap();
    assert_eq!(listing.len(), 2);
    assert!(listing.contains(&stored(1, "Ann", "ann@x.com")));
    assert!(listing.contains(&stored(2, "Bo", "bo@x.com")));
}

#[test]
fn listing_an_empty_store_answers_an_empty_list() {
    let mut pool = Pool::new(1);
    let table = UserTable::new();
    let listing = get_users(&mut pool, &table, 1);
    assert_eq!(listing, Ok(Vec::new()));
    assert_eq!(status_of(&listing), 200);
}

#[test]
fn a_created_user_is_listed_exactly_once_under_a_fresh_id() {
    let mut pool = Pool::new(1);
    let mut table = UserTable::new();
    for name in ["a", "b", "Ann"] {
        create_user(&mut pool, &mut table, 9, payload(name, "ann@x.com")).unwrap();
    }
    let before = get_users(&mut pool, &table, 9).unwrap();
    let created = create_user(&mut pool, &mut table, 9, payload("Ann", "ann@x.com")).unwrap();
    assert_eq!(created.name, "Ann");
    assert_eq!(created.email, "ann@x.com");
    assert!(before.iter().all(|user| user.id != created.id));
    let after = get_users(&mut pool, &table, 9).unwrap();
    assert_eq!(after.iter().filter(|user| user.id == created.id).count(), 1);
    assert_eq!(after.iter().filter(|user| **user == created).count(), 1);
    assert_eq!(after.len(), before.len() + 1);
    assert_eq!(&after[..before.len()], &before[..]);
}

#[test]
fn requests_give_their_connection_back() {
    let mut pool = Pool::new(3);
    let mut table = UserTable::new();
    create_user(&mut pool, &mut table, 1, payload("Ann", "ann@x.com")).unwrap();
    assert_eq!(pool.leased_count(), 0);
    assert_eq!(pool.opened(), 1);
    assert_eq!(pool.idle_count(), 1);
    get_users(&mut pool, &table, 2).unwrap();
    create_user(&mut pool, &mut table, 3, payload("Bo", "bo@x.com")).unwrap();
    assert_eq!(pool.leased_count(), 0);
    assert_eq!(pool.opened(), 1);
    assert_eq!(pool.waiting_count(), 0);
}

#[test]
fn a_request_to_a_used_up_pool_fails_and_touches_nothing() {
    let mut pool = Pool::new(1);
    let mut table = UserTable::new();
    let held = pool.try_acquire(50).unwrap();
    let refused = create_user(&mut pool, &mut table, 1, payload("Ann", "ann@x.com"));
    assert_eq!(refused, Err(HandlerError::Pool(PoolError::Exhausted)));
    assert_eq!(status_of(&refused), 500);
    assert_eq!(table.len(), 0);
    assert_eq!(get_users(&mut pool, &table, 2), Err(HandlerError::Pool(PoolError::Exhausted)));
    assert_eq!(pool.waiting_count(), 0);
    assert!(pool.holds(&held));
    pool.release(&held);
    assert_eq!(
        create_user(&mut pool, &mut table, 1, payload("Ann", "ann@x.com")),
        Ok(stored(1, "Ann", "ann@x.com"))
    );
}

#[test]
fn a_refused_insert_fails_the_request_and_returns_the_connection() {
    let mut pool = Pool::new(1);
    let mut table = UserTable::resuming(i32::MAX);
    let refused = create_user(&mut pool, &mut table, 1, payload("Ann", "ann@x.com"));
    assert_eq!(refused, Err(HandlerError::Store(StoreError::ConstraintViolation)));
    assert_eq!(status_of(&refused), 500);
    assert_eq!(table.len(), 0);
    assert_eq!(pool.leased_count(), 0);
    assert_eq!(pool.idle_count(), 1);
}

#[test]
fn the_stages_of_a_creation_name_the_lease_to_return_on_success() {
    let request = CreateUser::begin(payload("Ann", "ann@x.com"));
    assert_eq!(request.new_user, NewUser { name: "Ann".to_string(), email: "ann@x.com".to_string() });
    let lease = ConnectionHandle { slot: 4, task: 8 };
    let (row, insertion) = request.on_acquire(Ok(lease)).unwrap();
    assert_eq!(row, NewUser { name: "Ann".to_string(), email: "ann@x.com".to_string() });
    assert_eq!(insertion.lease, lease);
    let end: Finished<ConnectionHandle, User> = insertion.on_result(Ok(stored(12, "Ann", "ann@x.com")));
    assert_eq!(end.release, lease);
    assert!(!end.discard);
    assert_eq!(end.outcome, Ok(stored(12, "Ann", "ann@x.com")));
    assert_eq!(status_of(&end.outcome), STATUS_OK);
}

#[test]
fn the_stages_of_a_creation_name_the_lease_to_return_on_failure() {
    let lease = ConnectionHandle { slot: 0, task: 1 };
    for error in [StoreError::ConstraintViolation, StoreError::ConnectivityLoss] {
        let end = Insertion { lease }.on_result(Err(error));
        assert_eq!(end.release, lease);
        assert_eq!(end.discard, error == StoreError::ConnectivityLoss);
        assert_eq!(end.outcome, Err(HandlerError::Store(error)));
        assert_eq!(status_of(&end.outcome), STATUS_INTERNAL_ERROR);
    }
}

#[test]
fn a_creation_without_a_lease_ends_at_once() {
    let request = CreateUser::begin(payload("Ann", "ann@x.com"));
    let next = request.on_acquire::<ConnectionHandle>(Err(PoolError::Exhausted));
    assert_eq!(next.unwrap_err(), HandlerError::Pool(PoolError::Exhausted));
}

#[test]
fn the_stages_of_a_listing_pass_the_rows_on_as_they_came() {
    let lease = ConnectionHandle { slot: 2, task: 5 };
    let listing = ListUsers::begin().on_acquire(Ok(lease)).unwrap();
    assert_eq!(listing.lease, lease);
    let rows = vec![stored(9, "z", ""), stored(3, "a", ""), stored(5, "m", "")];
    let end = listing.on_result(Ok(rows.clone()));
    assert_eq!(end.release, lease);
    assert!(!end.discard);
    assert_eq!(end.outcome, Ok(rows));
}

#[test]
fn a_failed_listing_names_the_lease_to_return() {
    let lease = ConnectionHandle { slot: 1, task: 6 };
    let end = Listing { lease }.on_result(Err(StoreError::ConnectivityLoss));
    assert_eq!(end.release, lease);
    assert!(end.discard);
    assert!(!Listing { lease }.on_result(Err(StoreError::ConstraintViolation)).discard);
    assert_eq!(end.outcome, Err(HandlerError::Store(StoreError::ConnectivityLoss)));
    let refused = ListUsers::begin().on_acquire::<ConnectionHandle>(Err(PoolError::Exhausted));
    assert_eq!(refused.unwrap_err(), HandlerError::Pool(PoolError::Exhausted));
}

#[test]
fn every_failure_of_pool_or_store_has_the_same_status() {
    let pool: Result<User, HandlerError> = Err(HandlerError::Pool(PoolError::Exhausted));
    let refused: Result<User, HandlerError> = Err(HandlerError::Store(StoreError::ConstraintViolation));
    let lost: Result<Vec<User>, HandlerError> = Err(HandlerError::Store(StoreError::ConnectivityLoss));
    let malformed: Result<User, HandlerError> = Err(HandlerError::MalformedPayload);
    let fine: Result<Vec<User>, HandlerError> = Ok(Vec::new());
    assert_eq!(status_of(&pool), 500);
    assert_eq!(status_of(&refused), 500);
    assert_eq!(status_of(&lost), 500);
    assert_eq!(status_of(&malformed), 400);
    assert_eq!(status_of(&fine), 200);
    assert_eq!((STATUS_OK, STATUS_BAD_REQUEST, STATUS_INTERNAL_ERROR), (200, 400, 500));
}
