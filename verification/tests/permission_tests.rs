use ftpoq::permission::{parse_permission_list, EntryType, PermissionSet, UserPermission};

#[test]
fn ensure_all_permissions_have_serialisation_test() {
    UserPermission::all().iter().for_each(|p| assert!(!p.get_serializations().is_empty()));
}

#[test]
fn pvals_test() {
    let perm = UserPermission::Read;
    assert_eq!("r", perm.get_serializations()[0]);

    let perm = UserPermission::Append;
    assert_eq!("a", perm.get_serializations()[0]);

    let perm = UserPermission::Write;
    assert_eq!("w", perm.get_serializations()[0]);

    let perm = UserPermission::Create;
    assert_eq!("c", perm.get_serializations()[0]);

    let perm = UserPermission::Delete;
    assert_eq!("d", perm.get_serializations()[0]);

    let perm = UserPermission::Rename;
    assert_eq!("f", perm.get_serializations()[0]);

    let perm = UserPermission::List;
    assert_eq!("l", perm.get_serializations()[0]);

    let perm = UserPermission::Execute;
    assert_eq!("e", perm.get_serializations()[0]);
}

#[test]
fn permission_letters_parse_in_either_case() {
    assert_eq!(Some(UserPermission::Read), UserPermission::from_str("r"));
    assert_eq!(Some(UserPermission::Read), UserPermission::from_str("R"));
    assert_eq!(Some(UserPermission::Rename), UserPermission::from_str("f"));
    assert_eq!(None, UserPermission::from_str("read"));
    assert_eq!(None, UserPermission::from_str(""));
}

#[test]
fn applicable_permissions_by_entry_type() {
    assert_eq!(
        vec![
            UserPermission::Read,
            UserPermission::Write,
            UserPermission::Append,
            UserPermission::Rename,
            UserPermission::Delete
        ],
        UserPermission::get_applicable_permissions(&EntryType::File)
    );
    assert_eq!(
        vec![UserPermission::Delete, UserPermission::Rename],
        UserPermission::get_applicable_permissions(&EntryType::Link)
    );
    assert_eq!(
        UserPermission::get_applicable_permissions(&EntryType::Dir),
        UserPermission::get_applicable_permissions(&EntryType::Pdir)
    );
}

#[test]
fn permission_list_parsing() {
    let set = parse_permission_list(" r;w;;l; ").unwrap();
    assert!(set.contains(UserPermission::Read));
    assert!(set.contains(UserPermission::Write));
    assert!(set.contains(UserPermission::List));
    assert!(!set.contains(UserPermission::Delete));
    assert_eq!(Some(PermissionSet::new()), parse_permission_list(""));
    assert_eq!(None, parse_permission_list("r;x"));
    assert_eq!(None, parse_permission_list("r; w"));
}

#[test]
fn permission_set_from_list() {
    let set = PermissionSet::from_permissions(&[UserPermission::Create, UserPermission::Create]);
    let mut other = PermissionSet::new();
    other.insert(UserPermission::Create);
    assert_eq!(set, other);
}
