//! The HTTP API: health, users and login.
use crate::messages::{UserDTO, UserView};
use vstd::prelude::*;
use vstd::string::*;

verus! {

/// The HTTP status of a request that was served.
pub const STATUS_OK: u16 = 200;

/// The HTTP status of a login that was turned down.
pub const STATUS_UNAUTHORIZED: u16 = 401;

/// The HTTP status of a request that failed on the server's side.
pub const STATUS_INTERNAL_SERVER_ERROR: u16 = 500;

/// `GET /health`.
pub fn health_check() -> (body: &'static str)
    ensures
        body@ == "OK"@,
{
    "OK"
}

/// How reading the users failed, with the text that came with it.
#[derive(Debug, PartialEq, Eq)]
pub enum UsersFault {
    Lock(String),
    Prepare(String),
    Query(String),
}

/// How a failure to read the users reads.
pub open spec fn users_fault_text(fault: UsersFault) -> Seq<char> {
    match fault {
        UsersFault::Lock(text) => "DB lock error: "@ + text@,
        UsersFault::Prepare(text) => "DB error: "@ + text@,
        UsersFault::Query(text) => "Query error: "@ + text@,
    }
}

/// The users among `rows`: those that could be read, in order.
pub open spec fn readable(rows: Seq<Option<UserDTO>>) -> Seq<UserView>
    decreases rows.len(),
{
    if rows.len() == 0 {
        Seq::empty()
    } else {
        match rows.last() {
            Some(user) => readable(rows.drop_last()).push(user@),
            None => readable(rows.drop_last()),
        }
    }
}

/// The views of a list of users.
pub open spec fn user_views(users: Seq<UserDTO>) -> Seq<UserView> {
    users.map_values(|u: UserDTO| u@)
}

/// `prefix` with `text` behind it.
fn prefixed(prefix: &str, text: String) -> (both: String)
    ensures
        both@ == prefix@ + text@,
{
    let mut both = prefix.to_owned();
    both.append(text.as_str());
    both
}

/// `GET /users`, once the table has been read: all users whose rows could be read, or a status
/// and a text.
pub fn get_users(rows: Result<Vec<Option<UserDTO>>, UsersFault>) -> (users: Result<
    Vec<UserDTO>,
    (u16, String),
>)
    ensures
        match rows {
            Ok(rows) => users matches Ok(list) && user_views(list@) == readable(rows@),
            Err(fault) => users matches Err(failure) && failure.0 == STATUS_INTERNAL_SERVER_ERROR
                && failure.1@ == users_fault_text(fault),
        },
{
    match rows {
        Ok(rows) => Ok(readable_users(rows)),
        Err(UsersFault::Lock(text)) => Err(
            (STATUS_INTERNAL_SERVER_ERROR, prefixed("DB lock error: ", text)),
        ),
        Err(UsersFault::Prepare(text)) => Err(
            (STATUS_INTERNAL_SERVER_ERROR, prefixed("DB error: ", text)),
        ),
        Err(UsersFault::Query(text)) => Err(
            (STATUS_INTERNAL_SERVER_ERROR, prefixed("Query error: ", text)),
        ),
    }
}

fn readable_users(rows: Vec<Option<UserDTO>>) -> (list: Vec<UserDTO>)
    ensures
        user_views(list@) == readable(rows@),
{
    let mut list: Vec<UserDTO> = Vec::new();
    let mut at: usize = 0;
    proof {
        assert(user_views(list@) =~= Seq::empty());
    }
    while at < rows.len()
        invariant
            at <= rows.len(),
            user_views(list@) == readable(rows@.take(at as int)),
        decreases rows.len() - at,
    {
        proof {
            assert(rows@.take(at + 1).drop_last() =~= rows@.take(at as int));
            assert(rows@.take(at + 1).last() == rows@[at as int]);
        }
        let ghost before = list@;
        match &rows[at] {
            Some(user) => {
                let copy = UserDTO { id: user.id, username: user.username.clone() };
                list.push(copy);
                proof {
                    assert(user_views(list@) =~= user_views(before).push(user@));
                }
            },
            None => {},
        }
        at = at + 1;
    }
    proof {
        assert(rows@.take(at as int) =~= rows@);
    }
    list
}

/// The body of a login.
#[derive(Debug, PartialEq, Eq)]
pub struct LoginRequest {
    pub username: String,
    pub password: String,
}

/// How looking the user of a login up went.
#[derive(Debug, PartialEq, Eq)]
pub enum LoginLookup {
    /// The user's number.
    Found(i64),
    NotFound,
    /// The database could not be locked, and why.
    LockFailed(String),
}

/// `POST /login`, once the user has been looked up: a status and a text. There are no passwords
/// yet, so a user who exists is logged in whatever the password.
pub fn login(payload: &LoginRequest, lookup: LoginLookup) -> (response: (u16, String))
    ensures
        match lookup {
            LoginLookup::Found(_) => response.0 == STATUS_OK && response.1@
                == "Login successful for "@ + payload.username@,
            LoginLookup::NotFound => response.0 == STATUS_UNAUTHORIZED && response.1@
                == "Invalid credentials"@,
            LoginLookup::LockFailed(text) => response.0 == STATUS_INTERNAL_SERVER_ERROR
                && response.1@ == "DB lock error: "@ + text@,
        },
{
    match lookup {
        LoginLookup::Found(_) => {
            (STATUS_OK, prefixed("Login successful for ", payload.username.clone()))
        },
        LoginLookup::NotFound => (STATUS_UNAUTHORIZED, "Invalid credentials".to_owned()),
        LoginLookup::LockFailed(text) => {
            (STATUS_INTERNAL_SERVER_ERROR, prefixed("DB lock error: ", text))
        },
    }
}

/// Of the users all whose rows could be read are listed, in order, and no other.
pub proof fn law_readable_users_are_listed(
    a: Seq<Option<UserDTO>>,
    b: Seq<Option<UserDTO>>,
    user: UserDTO,
)
    ensures
        readable(a + b) == readable(a) + readable(b),
        readable(seq![Some(user)]) == seq![UserView { id: user.id, username: user.username@ }],
        readable(seq![None]).len() == 0,
        readable(Seq::empty()).len() == 0,
    decreases b.len(),
{
    let one = seq![Some(user)];
    let none = seq![None::<UserDTO>];
    assert(one.drop_last() =~= Seq::empty() && none.drop_last() =~= Seq::empty());
    assert(readable(one.drop_last()) =~= Seq::empty());
    assert(one.last() == Some(user) && none.last() is None);
    assert(readable(one) =~= seq![user@]);
    if b.len() == 0 {
        assert(a + b =~= a);
        assert(readable(a) + readable(b) =~= readable(a));
    } else {
        assert((a + b).drop_last() =~= a + b.drop_last());
        assert((a + b).last() == b.last());
        law_readable_users_are_listed(a, b.drop_last(), user);
        assert(readable(a + b) =~= readable(a) + readable(b));
    }
}

/// How a failure to read the users reads: what failed, and the text that came with it.
pub proof fn law_users_faults(text: String)
    ensures
        users_fault_text(UsersFault::Lock(text)) == "DB lock error: "@ + text@,
        users_fault_text(UsersFault::Prepare(text)) == "DB error: "@ + text@,
        users_fault_text(UsersFault::Query(text)) == "Query error: "@ + text@,
        STATUS_OK == 200 && STATUS_UNAUTHORIZED == 401 && STATUS_INTERNAL_SERVER_ERROR == 500,
{
}

/// Users are viewed one by one, in order.
pub proof fn law_users_are_viewed_one_by_one(users: Seq<UserDTO>, at: int)
    ensures
        user_views(users).len() == users.len(),
        0 <= at < users.len() ==> user_views(users)[at].id == users[at].id
            && user_views(users)[at].username == users[at].username@,
{
}

} // verus!
