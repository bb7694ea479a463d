//! The relation of users, held in memory.
//!
//! This is the reference model of the persisted relation: it gives out
//! identifiers as a database sequence does, starting at 1 and never twice,
//! and it hands its rows back in the order in which they were inserted. The
//! request handlers are stated against it. A deployment keeps the rows in
//! a database instead and reports what the database answered.

use vstd::prelude::*;
use crate::model::{clone_users, row_outcome, views, NewUser, NewUserView, User, UserView};

verus! {

/// Why a statement failed.
#[derive(Clone, Copy, Debug, PartialEq, Eq, Structural)]
pub enum StoreError {
    /// The store refused the row: a constraint would not hold with it.
    ConstraintViolation,
    /// The store could not be reached, or the connection broke.
    ConnectivityLoss,
}

/// The relation as a value: its rows in insertion order, and the last
/// identifier that was given out (0 before the first).
pub struct TableModel {
    pub rows: Seq<UserView>,
    pub issued: int,
}

impl TableModel {
    /// The relation without rows, which has given out no identifier.
    pub open spec fn empty() -> TableModel {
        TableModel { rows: Seq::empty(), issued: 0 }
    }

    /// The states the relation can be in: identifiers are positive, none is
    /// beyond the last one given out, and they grow along the rows, so no two
    /// rows share one.
    pub open spec fn wf(self) -> bool {
        &&& 0 <= self.issued <= i32::MAX
        &&& forall|i: int| 0 <= i < self.rows.len() ==> 1 <= (#[trigger] self.rows[i]).id <= self.issued
        &&& forall|i: int, j: int|
            0 <= i < j < self.rows.len() ==> (#[trigger] self.rows[i]).id < (#[trigger] self.rows[j]).id
    }

    /// Some row carries the identifier `id`.
    pub open spec fn has_id(self, id: int) -> bool {
        exists|i: int| 0 <= i < self.rows.len() && (#[trigger] self.rows[i]).id == id
    }

    /// One insert: the row gets the identifier after the last one given out
    /// and goes to the end. When the identifiers have run out the insert
    /// fails and changes nothing.
    pub open spec fn insert(self, new_user: NewUserView) -> (TableModel, Result<
        UserView,
        StoreError,
    >) {
        if self.issued < i32::MAX {
            let user = new_user.with_id(self.issued + 1);
            (TableModel { rows: self.rows.push(user), issued: self.issued + 1 }, Ok(user))
        } else {
            (self, Err(StoreError::ConstraintViolation))
        }
    }
}

/// An insert leaves the relation in a state it can be in.
pub proof fn lemma_insert_keeps_wf(table: TableModel, new_user: NewUserView)
    requires
        table.wf(),
    ensures
        table.insert(new_user).0.wf(),
{
}

/// A successful insert adds exactly one row. The row carries the payload's
/// name and email under an identifier that no row carried before, it is the
/// only row with that identifier afterwards, and every earlier row is still
/// there, unchanged and in its place.
pub proof fn lemma_insert_adds_one_fresh_row(table: TableModel, new_user: NewUserView)
    requires
        table.wf(),
        table.insert(new_user).1 is Ok,
    ensures
        ({
            let after = table.insert(new_user).0;
            let user = table.insert(new_user).1->Ok_0;
            let at = table.rows.len() as int;
            &&& user.name == new_user.name
            &&& user.email == new_user.email
            &&& !table.has_id(user.id)
            &&& after.rows.len() == table.rows.len() + 1
            &&& after.rows[at] == user
            &&& forall|i: int| 0 <= i < after.rows.len() && after.rows[i].id == user.id ==> i == at
            &&& forall|i: int| 0 <= i < table.rows.len() ==> after.rows[i] == table.rows[i]
        }),
{
}

/// The relation of users.
#[derive(Debug)]
pub struct UserTable {
    rows: Vec<User>,
    issued: i32,
}

impl View for UserTable {
    type V = TableModel;

    closed spec fn view(&self) -> TableModel {
        TableModel { rows: views(self.rows@), issued: self.issued as int }
    }
}

impl UserTable {
    /// Every table is in a state that the relation can be in.
    #[verifier::type_invariant]
    pub open spec fn consistent(self) -> bool {
        self@.wf()
    }

    /// The relation without rows.
    pub fn new() -> (table: UserTable)
        ensures
            table@ == TableModel::empty(),
            table@.wf(),
    {
        let table = UserTable { rows: Vec::new(), issued: 0 };
        assert(views(table.rows@) =~= Seq::empty());
        table
    }

    /// The relation without rows whose identifiers go on after `issued`, as
    /// after a restart of its sequence. A negative `issued` counts as 0.
    pub fn resuming(issued: i32) -> (table: UserTable)
        ensures
            table@ == (TableModel {
                rows: Seq::empty(),
                issued: if issued < 0 {
                    0
                } else {
                    issued as int
                },
            }),
            table@.wf(),
    {
        let table = UserTable { rows: Vec::new(), issued: if issued < 0 {
            0
        } else {
            issued
        } };
        assert(views(table.rows@) =~= Seq::empty());
        table
    }

    /// Inserts one row and answers it as stored, with its new identifier.
    ///
    /// The insert fails, and changes nothing, exactly when the identifiers
    /// have run out.
    pub fn insert(&mut self, new_user: NewUser) -> (outcome: Result<User, StoreError>)
        ensures
            old(self)@.wf(),
            final(self)@.wf(),
            final(self)@ == old(self)@.insert(new_user@).0,
            row_outcome(outcome) == old(self)@.insert(new_user@).1,
    {
        proof {
            use_type_invariant(&*self);
            lemma_insert_keeps_wf(self@, new_user@);
        }
        if self.issued == i32::MAX {
            return Err(StoreError::ConstraintViolation);
        }
        let mut taken = UserTable::new();
        std::mem::swap(self, &mut taken);
        let UserTable { mut rows, issued } = taken;
        let user = new_user.into_user(issued + 1);
        rows.push(user.clone());
        assert(views(rows@) =~= old(self)@.rows.push(user@));
        *self = UserTable { rows, issued: issued + 1 };
        Ok(user)
    }

    /// All rows, in the order in which they were inserted.
    pub fn load_all(&self) -> (rows: Vec<User>)
        ensures
            self@.wf(),
            views(rows@) == self@.rows,
    {
        proof {
            use_type_invariant(self);
        }
        clone_users(&self.rows)
    }

    /// The number of rows.
    pub fn len(&self) -> (count: usize)
        ensures
            count == self@.rows.len(),
    {
        self.rows.len()
    }
}

} // verus!
