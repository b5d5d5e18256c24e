use argon2::password_hash::{PasswordHasher, SaltString};
use ftpoq::auth::{
    sqlite_login_step, AuthError, LoginForm, SqliteLoginAction, SqliteLoginEvent, SqliteLoginState, UserRecord,
    ViewRecord,
};
use ftpoq::permission::UserPermission;

fn form(username: Option<&str>, password: Option<&str>) -> LoginForm {
    LoginForm { username: username.map(|u| u.to_string()), password: password.map(|p| p.to_string()) }
}

fn hash_of(password: &str) -> String {
    let salt = SaltString::from_b64("c29tZXNhbHRzb21lc2FsdA").unwrap();
    argon2::Argon2::default().hash_password(password.as_bytes(), &salt).unwrap().to_string()
}

fn record(password_hash: &str) -> UserRecord {
    UserRecord { user_id: 7, username: "user1".to_string(), password: password_hash.to_string() }
}

fn failure(action: SqliteLoginAction) -> AuthError {
    match action {
        SqliteLoginAction::Finish(Err(e)) => e,
        other => panic!("expected a failed login, got {:?}", other),
    }
}

fn awaiting_user(f: &LoginForm) -> SqliteLoginState {
    let (state, action) = sqlite_login_step(SqliteLoginState::Begin, SqliteLoginEvent::Start, f);
    match action {
        SqliteLoginAction::FindUser(name) => assert_eq!("user1", name),
        other => panic!("expected a user lookup, got {:?}", other),
    }
    state
}

#[test]
fn login_with_a_missing_field_is_a_backend_error() {
    for f in [form(None, Some("pw")), form(Some("user1"), None), form(None, None)] {
        let (state, action) = sqlite_login_step(SqliteLoginState::Begin, SqliteLoginEvent::Start, &f);
        assert!(matches!(state, SqliteLoginState::Done));
        assert_eq!(AuthError::BackendError, failure(action));
    }
}

#[test]
fn login_errors_come_in_order() {
    let f = form(Some("user1"), Some("user1"));

    let (_, action) = sqlite_login_step(awaiting_user(&f), SqliteLoginEvent::UserFound(Err(())), &f);
    assert_eq!(AuthError::BackendError, failure(action));

    let (_, action) = sqlite_login_step(awaiting_user(&f), SqliteLoginEvent::UserFound(Ok(None)), &f);
    assert_eq!(AuthError::UserNotFoundError, failure(action));

    let (_, action) =
        sqlite_login_step(awaiting_user(&f), SqliteLoginEvent::UserFound(Ok(Some(record(&hash_of("other"))))), &f);
    assert_eq!(AuthError::InvalidCredentials, failure(action));

    let (_, action) = sqlite_login_step(awaiting_user(&f), SqliteLoginEvent::UserFound(Ok(Some(record("plain")))), &f);
    assert!(matches!(action, SqliteLoginAction::StoredHashInvalid));

    let (state, action) =
        sqlite_login_step(awaiting_user(&f), SqliteLoginEvent::UserFound(Ok(Some(record(&hash_of("user1"))))), &f);
    assert!(matches!(action, SqliteLoginAction::FindViews(7)));
    let bad = vec![
        ViewRecord { root: "/a".to_string(), label: "a".to_string(), permissions: "r".to_string() },
        ViewRecord { root: "/b".to_string(), label: "b".to_string(), permissions: "x;r".to_string() },
    ];
    let (_, action) = sqlite_login_step(state, SqliteLoginEvent::ViewsFound(Ok(bad)), &f);
    assert_eq!(AuthError::PermissionParsingError, failure(action));
}

#[test]
fn login_runs_to_a_user_with_the_found_views() {
    let f = form(Some("user1"), Some("user1"));
    let hash = hash_of("user1");
    let (state, _) =
        sqlite_login_step(awaiting_user(&f), SqliteLoginEvent::UserFound(Ok(Some(record(&hash)))), &f);

    let views = vec![
        ViewRecord { root: "/a".to_string(), label: "a".to_string(), permissions: " r;l ".to_string() },
        ViewRecord { root: "/gone".to_string(), label: "g".to_string(), permissions: "w".to_string() },
    ];
    let (state, action) = sqlite_login_step(state, SqliteLoginEvent::ViewsFound(Ok(views)), &f);
    match action {
        SqliteLoginAction::FindRoots(roots) => assert_eq!(vec!["/a".to_string(), "/gone".to_string()], roots),
        other => panic!("expected the roots to be looked up, got {:?}", other),
    }

    let (state, action) =
        sqlite_login_step(state, SqliteLoginEvent::RootsFound(vec![Some("/srv/a".to_string()), None]), &f);
    assert!(matches!(state, SqliteLoginState::Done));
    match action {
        SqliteLoginAction::Finish(Ok(user)) => {
            assert_eq!("user1", user.username);
            assert_eq!(hash, user.password);
            assert_eq!(1, user.file_system_views.len());
            assert_eq!("/srv/a", user.file_system_views[0].root);
            assert_eq!("a", user.file_system_views[0].label);
            assert!(user.file_system_views[0].permissions.contains(UserPermission::List));
        }
        other => panic!("expected a logged-in user, got {:?}", other),
    }
}

#[test]
fn login_ignores_events_out_of_turn() {
    let f = form(Some("user1"), Some("user1"));
    let (state, action) = sqlite_login_step(SqliteLoginState::Begin, SqliteLoginEvent::ViewsFound(Err(())), &f);
    assert!(matches!(state, SqliteLoginState::Begin));
    assert!(matches!(action, SqliteLoginAction::Ignore));
}
