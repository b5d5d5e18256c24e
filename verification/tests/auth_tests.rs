use argon2::password_hash::{PasswordHasher, SaltString};
use ftpoq::auth::{
    assemble_user, form_username, found_user, try_verify_credentials, view_permissions, AuthError, AuthProvider,
    AuthStep, FileSystemView, LoginForm, UserData, UserRecord, ViewRecord,
};
use ftpoq::permission::{PermissionSet, UserPermission};

fn view(root: &str, label: &str) -> FileSystemView {
    FileSystemView::new(root, label, PermissionSet::from_permissions(&[UserPermission::Read]))
}

#[test]
fn user_data_views() {
    let mut user = UserData::new("user1", "hash");
    user.add_view(view("/a", "a"));
    user.add_view(view("/b", "b"));
    user.add_view(view("/a", "a"));
    user.remove_view(&view("/a", "a"));
    assert_eq!(2, user.file_system_views.len());
    assert_eq!("b", user.file_system_views[0].label);
    assert_eq!("a", user.file_system_views[1].label);
    user.remove_view(&view("/c", "c"));
    assert_eq!(2, user.file_system_views.len());
}

#[test]
fn login_form_needs_both_fields() {
    let mut form = LoginForm::new();
    assert_eq!(Err(AuthError::BackendError), form_username(&form));
    form.username = Some("user1".to_string());
    assert_eq!(Err(AuthError::BackendError), form_username(&form));
    form.password = Some("pw".to_string());
    assert_eq!(Ok("user1".to_string()), form_username(&form));
}

#[test]
fn user_lookup_outcomes() {
    assert_eq!(AuthError::BackendError, found_user(Err(())).unwrap_err());
    assert_eq!(AuthError::UserNotFoundError, found_user(Ok(None)).unwrap_err());
    let record = UserRecord { user_id: 1, username: "u".to_string(), password: "p".to_string() };
    assert_eq!(1, found_user(Ok(Some(record))).unwrap().user_id);
}

// An Argon2id PHC string that no test password matches.
const OTHER_HASH: &str = "$argon2id$v=19$m=19456,t=2,p=1$c29tZXNhbHRzb21lc2FsdA$Hm8Tx5cJQ1rBkANkZWv8L3F7GfrGdHYAlFH2wBGxD14";

#[test]
fn credentials_against_argon2_hash() {
    let record = UserRecord { user_id: 1, username: "user1".to_string(), password: OTHER_HASH.to_string() };
    let wrong = try_verify_credentials("INVALID", &record);
    assert_eq!(Some(Err(AuthError::InvalidCredentials)), wrong);
    let not_phc = UserRecord { user_id: 2, username: "x".to_string(), password: "plain".to_string() };
    assert_eq!(None, try_verify_credentials("plain", &not_phc));
}

#[test]
fn stored_view_permissions() {
    let good = vec![
        ViewRecord { root: "/a".to_string(), label: "a".to_string(), permissions: "r;l".to_string() },
        ViewRecord { root: "/b".to_string(), label: "b".to_string(), permissions: "".to_string() },
    ];
    let sets = view_permissions(&good).unwrap();
    assert!(sets[0].contains(UserPermission::List));
    assert_eq!(PermissionSet::new(), sets[1]);
    let bad = vec![ViewRecord { root: "/a".to_string(), label: "a".to_string(), permissions: "rw".to_string() }];
    assert_eq!(Err(AuthError::PermissionParsingError), view_permissions(&bad).map(|_| ()));
}

#[test]
fn provider_asks_sources_in_order() {
    let mut provider: AuthProvider<&str> = AuthProvider::new();
    assert!(matches!(provider.first_step(), AuthStep::Rejected));
    provider.add_data_source("first");
    provider.add_data_source("second");
    assert_eq!(&vec!["first", "second"], provider.data_sources());
    assert!(matches!(provider.first_step(), AuthStep::TryNext(0)));
    assert!(matches!(provider.next_step(0, Err(AuthError::InvalidCredentials)), AuthStep::TryNext(1)));
    assert!(matches!(provider.next_step(1, Err(AuthError::UserNotFoundError)), AuthStep::Rejected));
    match provider.next_step(1, Ok(UserData::new("u", "h"))) {
        AuthStep::Authenticated(u) => assert_eq!("u", u.username),
        _ => panic!("expected authentication"),
    }
}

#[test]
fn credentials_accepted_for_matching_password() {
    let salt = SaltString::from_b64("c29tZXNhbHRzb21lc2FsdA").unwrap();
    let hash = argon2::Argon2::default().hash_password(b"user1", &salt).unwrap().to_string();
    let record = UserRecord { user_id: 1, username: "user1".to_string(), password: hash.clone() };
    assert_eq!(Some(Ok(hash)), try_verify_credentials("user1", &record));
    assert_eq!(Some(Err(AuthError::InvalidCredentials)), try_verify_credentials("user2", &record));
}

#[test]
fn assembled_user_keeps_found_views_in_order() {
    let views = vec![
        ViewRecord { root: "/a".to_string(), label: "a".to_string(), permissions: "r".to_string() },
        ViewRecord { root: "/missing".to_string(), label: "m".to_string(), permissions: "w".to_string() },
        ViewRecord { root: "/c".to_string(), label: "c".to_string(), permissions: "r;l".to_string() },
    ];
    let perms = view_permissions(&views).unwrap();
    let roots = vec![Some("/srv/a".to_string()), None, Some("/srv/c".to_string())];
    let user = assemble_user("alice", "$argon2id$hash", &views, &perms, &roots);
    assert_eq!("alice", user.username);
    assert_eq!("$argon2id$hash", user.password);
    assert_eq!(2, user.file_system_views.len());
    assert_eq!("/srv/a", user.file_system_views[0].root);
    assert_eq!("a", user.file_system_views[0].label);
    assert!(user.file_system_views[0].permissions.contains(UserPermission::Read));
    assert_eq!("/srv/c", user.file_system_views[1].root);
    assert_eq!("c", user.file_system_views[1].label);
    assert!(user.file_system_views[1].permissions.contains(UserPermission::List));
    assert!(!user.file_system_views[1].permissions.contains(UserPermission::Write));
}
