//! The user records served by the API, and the fixed list that the
//! `/api/users` route answers with.

use vstd::prelude::*;

verus! {

/// A user record: an opaque string identifier, a display name, and an
/// email address. None of the fields is validated.
pub struct User {
    pub id: String,
    pub name: String,
    pub email: String,
}

/// `u` holds exactly these three field values.
pub open spec fn user_has(u: User, id: Seq<char>, name: Seq<char>, email: Seq<char>) -> bool {
    u.id@ == id && u.name@ == name && u.email@ == email
}

/// The list behind `GET /api/users`: always the same two records, Alice
/// then Bob, freshly built on every call.
pub fn get_users() -> (users: Vec<User>)
    ensures
        users@.len() == 2,
        user_has(users@[0], "1"@, "Alice"@, "alice@example.com"@),
        user_has(users@[1], "2"@, "Bob"@, "bob@example.com"@),
{
    let mut users: Vec<User> = Vec::new();
    users.push(User {
        id: String::from_str("1"),
        name: String::from_str("Alice"),
        email: String::from_str("alice@example.com"),
    });
    users.push(User {
        id: String::from_str("2"),
        name: String::from_str("Bob"),
        email: String::from_str("bob@example.com"),
    });
    users
}

} // verus!
