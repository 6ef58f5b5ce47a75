//! The cookie-backed authentication component.
//!
//! A session has no identifier of its own: the cookie carries exactly the
//! username, and the server side of the session lives entirely in the
//! `last_appearance` column of the user record.  Every successful
//! validation both consumes and renews the five-minute window — an
//! actively used session never expires, an idle one expires exactly the
//! window after its last validated request.  Login and refresh go through
//! the generic CRUD engine against the user store, so the authenticator
//! adds no storage mechanism of its own.
//!
//! The boundary hands in the cookie value and the current time and carries
//! out the returned [`CookieAction`]; nothing here reads a clock or an
//! HTTP request.

use vstd::prelude::*;

use crate::database_operations::{
    get_user, has_key, key_index, lemma_same_key_update, row_keys, row_values, update_data,
    DbTable, SchemaTable,
};
use crate::schema::UserInfo;
use crate::values::{text_eq, SqlScalar};

verus! {

/// An idle session expires this many seconds after its last validated
/// request.
pub const SESSION_WINDOW_SECS: i64 = 300;

/// The credential pair a login form submits, and the identity a session
/// carries.
#[derive(Debug)]
pub struct UserData {
    pub username: String,
    pub password: String,
}

/// A validated session's view of the user, with the privilege tier
/// already decided.
#[derive(Debug)]
pub struct User {
    pub is_admin: bool,
    pub data: UserData,
}

impl User {
    /// Packs a validated identity.
    pub fn new(username: String, password: String, is_admin: bool) -> (u: User)
        ensures
            u.data.username == username,
            u.data.password == password,
            u.is_admin == is_admin,
    {
        User { is_admin, data: UserData { username, password } }
    }
}

/// A validated admin session.
pub struct Admin {
    pub data: UserData,
}

/// What the boundary must do with the session cookie after an
/// authentication step.
#[derive(Debug)]
pub enum CookieAction {
    /// Leave the cookie jar alone.
    Keep,
    /// (Re)issue the session cookie with this username.
    Issue(String),
    /// Clear the session cookie.
    Clear,
}

/// The verdict of session validation.
pub enum AuthOutcome {
    Granted(User),
    Rejected,
}

/// The verdict of the admin gate.
pub enum AdminOutcome {
    Granted(Admin),
    Rejected,
}

/// The uniform verdict of a login attempt: a failure never discloses
/// which credential check refused it.
#[derive(Debug, PartialEq, Eq, Structural)]
pub enum LoginOutcome {
    Success,
    Failure,
}

/// The primary key under which a session cookie's username is looked up.
pub open spec fn username_key(name: Seq<char>) -> Seq<SqlScalar> {
    seq![SqlScalar::Text(name)]
}

/// Whether the sliding window is still open at `now` for a session last
/// validated at `last`.
pub open spec fn session_live(last: int, now: int) -> bool {
    now - last < SESSION_WINDOW_SECS as int
}

/// Whether a user record carries the admin privilege flag.
pub open spec fn spec_is_admin(u: UserInfo) -> bool {
    u.is_admin@ == "y"@
}

/// Refreshes the user's sliding window to `now`, through the CRUD
/// engine's update operation: old = the record as fetched, new = the same
/// record with the timestamp bumped.  Every row keeps its rank; only the
/// `last_appearance` column of this user's row changes.
fn bump_last_appearance(table: &mut DbTable<UserInfo>, u: &UserInfo, now: i64)
    requires
        old(table).wf(),
        has_key(old(table).spec_rows(), u.spec_key()),
        u.spec_values() == old(table).spec_rows()[key_index(
            old(table).spec_rows(),
            u.spec_key(),
        )].spec_values(),
    ensures
        final(table).wf(),
        row_keys(final(table).spec_rows()) == row_keys(old(table).spec_rows()),
        row_values(final(table).spec_rows()) == row_values(old(table).spec_rows()).update(
            key_index(old(table).spec_rows(), u.spec_key()),
            u.spec_values().update(3, SqlScalar::Stamp(now as int)),
        ),
{
    let ghost s = table.spec_rows();
    let ghost k = u.spec_key();
    let updated = UserInfo {
        username: u.username.clone(),
        password: u.password.clone(),
        is_admin: u.is_admin.clone(),
        last_appearance: now,
    };
    proof {
        assert(updated.spec_values() =~= u.spec_values().update(
            3,
            SqlScalar::Stamp(now as int),
        ));
        assert(updated.spec_key() =~= u.spec_key());
    }
    match update_data(table, u, &updated) {
        Ok(_) => (),
        Err(_) => {
            proof {
                assert(false);
            }
        },
    }
    proof {
        lemma_same_key_update(s, k, updated.spec_values());
    }
}

impl User {
    /// Session validation against the user store, from the request's
    /// cookie and the current time.  No cookie, an unknown username, or a
    /// window that has already slid shut is rejected — the latter also
    /// clears the cookie, forcing a fresh login.  A live session is
    /// granted, its cookie reissued and its window renewed through the
    /// CRUD engine.
    pub fn from_request(table: &mut DbTable<UserInfo>, cookie: Option<&String>, now: i64) -> (r: (
        AuthOutcome,
        CookieAction,
    ))
        requires
            old(table).wf(),
        ensures
            final(table).wf(),
            match cookie {
                None => r.0 is Rejected && r.1 is Keep && final(table).spec_rows() == old(table).spec_rows(),
                Some(c) => {
                    let s = old(table).spec_rows();
                    let kk = username_key(c@);
                    &&& !has_key(s, kk) ==> r.0 is Rejected && r.1 is Keep && final(table).spec_rows() == s
                    &&& has_key(s, kk) && !session_live(
                        s[key_index(s, kk)].last_appearance as int,
                        now as int,
                    ) ==> r.0 is Rejected && r.1 is Clear && final(table).spec_rows() == s
                    &&& has_key(s, kk) && session_live(
                        s[key_index(s, kk)].last_appearance as int,
                        now as int,
                    ) ==> {
                        let row = s[key_index(s, kk)];
                        &&& (r.0 matches AuthOutcome::Granted(u) && u.is_admin == spec_is_admin(
                            row,
                        ) && u.data.username@ == c@)
                        &&& (r.1 matches CookieAction::Issue(name) && name@ == c@)
                        &&& row_keys(final(table).spec_rows()) == row_keys(s)
                        &&& row_values(final(table).spec_rows()) == row_values(s).update(
                            key_index(s, kk),
                            row.spec_values().update(3, SqlScalar::Stamp(now as int)),
                        )
                    }
                },
            },
    {
        let cook = match cookie {
            Some(c) => c,
            None => {
                return (AuthOutcome::Rejected, CookieAction::Keep);
            },
        };
        let probe = UserInfo {
            username: cook.clone(),
            password: String::new(),
            is_admin: String::new(),
            last_appearance: 0,
        };
        proof {
            assert(probe.spec_key() =~= username_key(cook@));
        }
        let u = match get_user(table, &probe) {
            Ok(Some(u)) => u,
            Ok(None) => {
                return (AuthOutcome::Rejected, CookieAction::Keep);
            },
            Err(_) => {
                proof {
                    assert(false);
                }
                return (AuthOutcome::Rejected, CookieAction::Keep);
            },
        };
        let ghost s = table.spec_rows();
        let ghost kk = username_key(cook@);
        let ghost row = s[key_index(s, kk)];
        proof {
            assert(u.spec_key()[0] == probe.spec_key()[0]);
            assert(u.spec_values()[1] == row.spec_values()[1]);
            assert(u.spec_values()[2] == row.spec_values()[2]);
            assert(u.spec_values()[3] == row.spec_values()[3]);
        }
        // check whether the user must log in again: the window slid shut
        if (now as i128) - (u.last_appearance as i128) >= (SESSION_WINDOW_SECS as i128) {
            return (AuthOutcome::Rejected, CookieAction::Clear);
        }
        let name = u.username.clone();
        let is_admin = text_eq(u.is_admin.as_str(), "y");
        bump_last_appearance(table, &u, now);
        (
            AuthOutcome::Granted(User::new(u.username, u.password, is_admin)),
            CookieAction::Issue(name),
        )
    }
}

impl Admin {
    /// The admin gate: session validation stacked with the privilege
    /// flag.  A valid but non-admin session is rejected — though its
    /// window was still renewed, exactly as for an admin — and anything
    /// the plain validation rejects is rejected here too.
    pub fn from_request(table: &mut DbTable<UserInfo>, cookie: Option<&String>, now: i64) -> (r: (
        AdminOutcome,
        CookieAction,
    ))
        requires
            old(table).wf(),
        ensures
            final(table).wf(),
            match cookie {
                None => r.0 is Rejected && r.1 is Keep && final(table).spec_rows() == old(table).spec_rows(),
                Some(c) => {
                    let s = old(table).spec_rows();
                    let kk = username_key(c@);
                    &&& !has_key(s, kk) ==> r.0 is Rejected && r.1 is Keep && final(table).spec_rows() == s
                    &&& has_key(s, kk) && !session_live(
                        s[key_index(s, kk)].last_appearance as int,
                        now as int,
                    ) ==> r.0 is Rejected && r.1 is Clear && final(table).spec_rows() == s
                    &&& has_key(s, kk) && session_live(
                        s[key_index(s, kk)].last_appearance as int,
                        now as int,
                    ) ==> {
                        let row = s[key_index(s, kk)];
                        &&& spec_is_admin(row) ==> (r.0 matches AdminOutcome::Granted(a)
                            && a.data.username@ == c@)
                        &&& !spec_is_admin(row) ==> r.0 is Rejected
                        &&& (r.1 matches CookieAction::Issue(name) && name@ == c@)
                        &&& row_keys(final(table).spec_rows()) == row_keys(s)
                        &&& row_values(final(table).spec_rows()) == row_values(s).update(
                            key_index(s, kk),
                            row.spec_values().update(3, SqlScalar::Stamp(now as int)),
                        )
                    }
                },
            },
    {
        let (outcome, action) = User::from_request(table, cookie, now);
        match outcome {
            AuthOutcome::Granted(user) => {
                if user.is_admin {
                    (
                        AdminOutcome::Granted(
                            Admin {
                                data: UserData {
                                    username: user.data.username,
                                    password: user.data.password,
                                },
                            },
                        ),
                        action,
                    )
                } else {
                    (AdminOutcome::Rejected, action)
                }
            },
            AuthOutcome::Rejected => (AdminOutcome::Rejected, action),
        }
    }
}

/// A login attempt with the submitted credentials, at the current time.
/// Exactly when the username exists and the submitted password equals the
/// stored one, the session cookie is issued and the sliding window opens
/// at `now`; otherwise nothing changes and the single uniform failure is
/// reported, never which check refused.
pub fn auth_user(table: &mut DbTable<UserInfo>, credentials: &UserData, now: i64) -> (r: (
    LoginOutcome,
    CookieAction,
))
    requires
        old(table).wf(),
    ensures
        final(table).wf(),
        ({
            let s = old(table).spec_rows();
            let kk = username_key(credentials.username@);
            let ok = has_key(s, kk) && s[key_index(s, kk)].password@ == credentials.password@;
            &&& ok ==> {
                let row = s[key_index(s, kk)];
                &&& r.0 == LoginOutcome::Success
                &&& (r.1 matches CookieAction::Issue(name) && name@ == credentials.username@)
                &&& row_keys(final(table).spec_rows()) == row_keys(s)
                &&& row_values(final(table).spec_rows()) == row_values(s).update(
                    key_index(s, kk),
                    row.spec_values().update(3, SqlScalar::Stamp(now as int)),
                )
            }
            &&& !ok ==> r.0 == LoginOutcome::Failure && r.1 is Keep && final(table).spec_rows()
                == s
        }),
{
    let probe = UserInfo {
        username: credentials.username.clone(),
        password: String::new(),
        is_admin: String::new(),
        last_appearance: 0,
    };
    proof {
        assert(probe.spec_key() =~= username_key(credentials.username@));
    }
    let u = match get_user(table, &probe) {
        Ok(Some(u)) => u,
        Ok(None) => {
            return (LoginOutcome::Failure, CookieAction::Keep);
        },
        Err(_) => {
            proof {
                assert(false);
            }
            return (LoginOutcome::Failure, CookieAction::Keep);
        },
    };
    proof {
        let s = table.spec_rows();
        let kk = username_key(credentials.username@);
        assert(u.spec_key()[0] == probe.spec_key()[0]);
        assert(u.spec_values()[1] == s[key_index(s, kk)].spec_values()[1]);
    }
    if !u.password.eq(&credentials.password) {
        return (LoginOutcome::Failure, CookieAction::Keep);
    }
    let name = u.username.clone();
    proof {
        assert(name@ == credentials.username@);
    }
    bump_last_appearance(table, &u, now);
    (LoginOutcome::Success, CookieAction::Issue(name))
}

/// Sign-out: clear the cookie unconditionally; the store is untouched.
pub fn signout_user() -> (r: CookieAction)
    ensures
        r is Clear,
{
    CookieAction::Clear
}

/// Each successful validation renews the window, so a session validated
/// again and again — each call within the window of the previous one —
/// stays live forever.
pub open spec fn chain_lives(last: int, times: Seq<int>) -> bool
    decreases times.len(),
{
    times.len() == 0 || (session_live(last, times[0]) && chain_lives(
        times[0],
        times.drop_first(),
    ))
}

/// The sliding window: starting from a session refreshed at `last`, any
/// chain of validation times, each less than the window after the one
/// before it, keeps every validation live — the actively used session
/// never expires.  (A single gap of the full window, by contrast, fails
/// `session_live` outright and is rejected with the cookie cleared; see
/// [`User::from_request`].)
pub proof fn lemma_sliding_window(last: int, times: Seq<int>)
    requires
        forall|i: int|
            0 <= i < times.len() ==> #[trigger] times[i] - (if i == 0 {
                last
            } else {
                times[i - 1]
            }) < SESSION_WINDOW_SECS as int,
    ensures
        chain_lives(last, times),
    decreases times.len(),
{
    if times.len() > 0 {
        assert(times[0] - last < SESSION_WINDOW_SECS as int);
        let rest = times.drop_first();
        assert(forall|j: int| 0 <= j < rest.len() ==> rest[j] == times[j + 1]);
        lemma_sliding_window(times[0], rest);
    }
}

} // verus!
