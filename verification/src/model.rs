//! The records that travel between a request, the store and a response.

use vstd::prelude::*;

verus! {

/// What a stored user is, mathematically.
pub struct UserView {
    pub id: int,
    pub name: Seq<char>,
    pub email: Seq<char>,
}

/// What a user without an identity is, mathematically.
pub struct NewUserView {
    pub name: Seq<char>,
    pub email: Seq<char>,
}

/// The body of a creation request, as the caller sent it.
#[derive(Debug, PartialEq, Eq)]
pub struct UserInput {
    pub name: String,
    pub email: String,
}

/// A row that is about to be inserted: it has no identifier yet.
#[derive(Debug, PartialEq, Eq)]
pub struct NewUser {
    pub name: String,
    pub email: String,
}

/// A stored row. The store chose `id`; nothing changes it afterwards.
#[derive(Debug, PartialEq, Eq)]
pub struct User {
    pub id: i32,
    pub name: String,
    pub email: String,
}

impl View for UserInput {
    type V = NewUserView;

    open spec fn view(&self) -> NewUserView {
        NewUserView { name: self.name@, email: self.email@ }
    }
}

impl View for NewUser {
    type V = NewUserView;

    open spec fn view(&self) -> NewUserView {
        NewUserView { name: self.name@, email: self.email@ }
    }
}

impl View for User {
    type V = UserView;

    open spec fn view(&self) -> UserView {
        UserView { id: self.id as int, name: self.name@, email: self.email@ }
    }
}

impl NewUserView {
    /// The stored row that this payload becomes under the identifier `id`.
    pub open spec fn with_id(self, id: int) -> UserView {
        UserView { id, name: self.name, email: self.email }
    }
}

impl NewUser {
    /// Builds the row to insert from a request body: the name and the email
    /// are taken over as they are, without validation of their format.
    pub fn from_input(input: UserInput) -> (row: NewUser)
        ensures
            row@ == input@,
    {
        NewUser { name: input.name, email: input.email }
    }

    /// The stored row that this one becomes once the store has chosen `id`.
    pub fn into_user(self, id: i32) -> (user: User)
        ensures
            user@ == self@.with_id(id as int),
    {
        User { id, name: self.name, email: self.email }
    }
}

impl Clone for User {
    fn clone(&self) -> (copy: User)
        ensures
            copy@ == self@,
    {
        User { id: self.id, name: self.name.clone(), email: self.email.clone() }
    }
}

/// The views of the rows of `rows`, in the same order.
pub open spec fn views(rows: Seq<User>) -> Seq<UserView> {
    rows.map_values(|user: User| user@)
}

/// The view of the outcome of a statement that yields one row.
pub open spec fn row_outcome<E>(outcome: Result<User, E>) -> Result<UserView, E> {
    match outcome {
        Ok(user) => Ok(user@),
        Err(error) => Err(error),
    }
}

/// The view of the outcome of a statement that yields a list of rows.
pub open spec fn rows_outcome<E>(outcome: Result<Vec<User>, E>) -> Result<Seq<UserView>, E> {
    match outcome {
        Ok(rows) => Ok(views(rows@)),
        Err(error) => Err(error),
    }
}

/// Copies a list of rows.
pub fn clone_users(rows: &Vec<User>) -> (copy: Vec<User>)
    ensures
        views(copy@) == views(rows@),
{
    let mut copy: Vec<User> = Vec::new();
    let mut i: usize = 0;
    while i < rows.len()
        invariant
            i <= rows.len(),
            copy.len() == i,
            forall|k: int| 0 <= k < i ==> copy[k]@ == rows[k]@,
        decreases rows.len() - i,
    {
        copy.push(rows[i].clone());
        i += 1;
    }
    assert(views(copy@) =~= views(rows@));
    copy
}

} // verus!
