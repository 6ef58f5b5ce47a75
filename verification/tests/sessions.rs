//! Behavioral tests of login, session validation, the admin gate and the
//! connection pool.

use geopanel::auth::{
    auth_user, signout_user, Admin, AdminOutcome, AuthOutcome, CookieAction, LoginOutcome, User,
    UserData, SESSION_WINDOW_SECS,
};
use geopanel::database_operations::{get_user, insert_data, DbTable};
use geopanel::database_oracle::{ConnectionPool, DbConnectionManager};
use geopanel::error::Error;
use geopanel::schema::UserInfo;

fn store_with(users: &[(&str, &str, &str)]) -> DbTable<UserInfo> {
    let mut table = DbTable::new();
    for (username, password, is_admin) in users {
        let record = UserInfo {
            username: username.to_string(),
            password: password.to_string(),
            is_admin: is_admin.to_string(),
            last_appearance: 0,
        };
        insert_data(&mut table, &record).unwrap();
    }
    table
}

fn probe(username: &str) -> UserInfo {
    UserInfo {
        username: username.to_string(),
        password: String::new(),
        is_admin: String::new(),
        last_appearance: 0,
    }
}

fn credentials(username: &str, password: &str) -> UserData {
    UserData {
        username: username.to_string(),
        password: password.to_string(),
    }
}

#[test]
fn login_with_the_right_password_issues_the_cookie_and_opens_the_window() {
    let mut table = store_with(&[("bob", "tapir", "n")]);
    let (outcome, action) = auth_user(&mut table, &credentials("bob", "tapir"), 1_000);
    assert_eq!(outcome, LoginOutcome::Success);
    assert!(matches!(action, CookieAction::Issue(ref name) if name == "bob"));
    let stored = get_user(&table, &probe("bob")).unwrap().unwrap();
    assert_eq!(stored.last_appearance, 1_000);
}

#[test]
fn failed_logins_are_uniform_and_change_nothing() {
    let mut table = store_with(&[("bob", "tapir", "n")]);
    let wrong_password = auth_user(&mut table, &credentials("bob", "okapi"), 1_000);
    let unknown_user = auth_user(&mut table, &credentials("eve", "tapir"), 1_000);
    // neither outcome discloses which check failed
    assert_eq!(wrong_password.0, LoginOutcome::Failure);
    assert_eq!(unknown_user.0, LoginOutcome::Failure);
    assert!(matches!(wrong_password.1, CookieAction::Keep));
    assert!(matches!(unknown_user.1, CookieAction::Keep));
    let stored = get_user(&table, &probe("bob")).unwrap().unwrap();
    assert_eq!(stored.last_appearance, 0);
}

#[test]
fn validation_without_a_cookie_is_rejected() {
    let mut table = store_with(&[("bob", "tapir", "n")]);
    let (outcome, action) = User::from_request(&mut table, None, 1_000);
    assert!(matches!(outcome, AuthOutcome::Rejected));
    assert!(matches!(action, CookieAction::Keep));
}

#[test]
fn validation_of_an_unknown_username_is_rejected() {
    let mut table = store_with(&[("bob", "tapir", "n")]);
    let cookie = "eve".to_string();
    let (outcome, action) = User::from_request(&mut table, Some(&cookie), 1_000);
    assert!(matches!(outcome, AuthOutcome::Rejected));
    assert!(matches!(action, CookieAction::Keep));
}

#[test]
fn sliding_window_keeps_an_active_session_alive_indefinitely() {
    let mut table = store_with(&[("bob", "tapir", "n")]);
    auth_user(&mut table, &credentials("bob", "tapir"), 0);
    let cookie = "bob".to_string();
    // validate every four minutes: each call renews the window
    let mut now: i64 = 0;
    for _ in 0..20 {
        now += 240;
        let (outcome, action) = User::from_request(&mut table, Some(&cookie), now);
        assert!(matches!(outcome, AuthOutcome::Granted(_)));
        assert!(matches!(action, CookieAction::Issue(ref name) if name == "bob"));
    }
    let stored = get_user(&table, &probe("bob")).unwrap().unwrap();
    assert_eq!(stored.last_appearance, now);
}

#[test]
fn a_six_minute_gap_expires_the_session_and_clears_the_cookie() {
    let mut table = store_with(&[("bob", "tapir", "n")]);
    auth_user(&mut table, &credentials("bob", "tapir"), 1_000);
    let cookie = "bob".to_string();
    let (outcome, action) = User::from_request(&mut table, Some(&cookie), 1_000 + 360);
    assert!(matches!(outcome, AuthOutcome::Rejected));
    assert!(matches!(action, CookieAction::Clear));
    // the store keeps the stale timestamp: the caller must log in again
    let stored = get_user(&table, &probe("bob")).unwrap().unwrap();
    assert_eq!(stored.last_appearance, 1_000);
}

#[test]
fn expiry_is_exactly_at_the_window_edge() {
    let mut table = store_with(&[("bob", "tapir", "n")]);
    auth_user(&mut table, &credentials("bob", "tapir"), 0);
    let cookie = "bob".to_string();
    let (just_inside, _) = User::from_request(&mut table, Some(&cookie), SESSION_WINDOW_SECS - 1);
    assert!(matches!(just_inside, AuthOutcome::Granted(_)));
    // the window was renewed at SESSION_WINDOW_SECS - 1; a full window
    // later the session is gone
    let edge = SESSION_WINDOW_SECS - 1 + SESSION_WINDOW_SECS;
    let (at_edge, action) = User::from_request(&mut table, Some(&cookie), edge);
    assert!(matches!(at_edge, AuthOutcome::Rejected));
    assert!(matches!(action, CookieAction::Clear));
}

#[test]
fn validation_reports_the_admin_flag() {
    let mut table = store_with(&[("root", "toor", "y"), ("bob", "tapir", "n")]);
    let admin_cookie = "root".to_string();
    let user_cookie = "bob".to_string();
    match User::from_request(&mut table, Some(&admin_cookie), 10).0 {
        AuthOutcome::Granted(user) => {
            assert!(user.is_admin);
            assert_eq!(user.data.username, "root");
        }
        AuthOutcome::Rejected => panic!("admin session rejected"),
    }
    match User::from_request(&mut table, Some(&user_cookie), 10).0 {
        AuthOutcome::Granted(user) => assert!(!user.is_admin),
        AuthOutcome::Rejected => panic!("user session rejected"),
    }
}

#[test]
fn admin_gate_rejects_a_non_admin_session_and_accepts_an_admin_one() {
    let mut table = store_with(&[("root", "toor", "y"), ("bob", "tapir", "n")]);
    let admin_cookie = "root".to_string();
    let user_cookie = "bob".to_string();
    let (outcome, action) = Admin::from_request(&mut table, Some(&user_cookie), 10);
    // authenticated, but not admin: rejected, though the window was renewed
    assert!(matches!(outcome, AdminOutcome::Rejected));
    assert!(matches!(action, CookieAction::Issue(ref name) if name == "bob"));
    match Admin::from_request(&mut table, Some(&admin_cookie), 10).0 {
        AdminOutcome::Granted(admin) => assert_eq!(admin.data.username, "root"),
        AdminOutcome::Rejected => panic!("admin rejected by the admin gate"),
    }
}

#[test]
fn an_expired_session_is_rejected_by_both_gates() {
    let mut table = store_with(&[("root", "toor", "y")]);
    auth_user(&mut table, &credentials("root", "toor"), 0);
    let cookie = "root".to_string();
    let late = SESSION_WINDOW_SECS + 60;
    let (user_outcome, _) = User::from_request(&mut table, Some(&cookie), late);
    assert!(matches!(user_outcome, AuthOutcome::Rejected));
    let (admin_outcome, action) = Admin::from_request(&mut table, Some(&cookie), late);
    assert!(matches!(admin_outcome, AdminOutcome::Rejected));
    assert!(matches!(action, CookieAction::Clear));
}

#[test]
fn signout_clears_the_cookie() {
    assert!(matches!(signout_user(), CookieAction::Clear));
}

#[test]
fn the_pool_is_bounded_and_exhaustion_is_its_own_failure() {
    let manager = DbConnectionManager::new("app", "not-a-real-password", "db.example:1521/geo");
    let mut pool = ConnectionPool::build(manager, 2);
    let first = pool.acquire().unwrap();
    let _second = pool.acquire().unwrap();
    let exhausted = pool.acquire().unwrap_err();
    assert!(matches!(exhausted, Error::PoolExhausted));
    pool.release(first);
    // a slot freed on return can be handed out again
    let third = pool.acquire().unwrap();
    drop(third);
}

#[test]
fn fresh_handles_pass_the_health_check() {
    let manager = DbConnectionManager::new("app", "not-a-real-password", "db.example:1521/geo");
    let conn = manager.connect();
    assert!(manager.is_valid(&conn).is_ok());
    assert!(!manager.has_broken(&conn));
}
