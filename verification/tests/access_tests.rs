use voice2md::access::{AccessControl, AccessMode, PersistedAccess};

#[test]
fn new_state_is_public_and_empty() {
    let a = AccessControl::new();
    assert_eq!(a.mode(), AccessMode::Public);
    assert!(a.is_allowed(1));
    assert!(!a.is_manager(1));
    assert!(a.users().is_empty());
}

#[test]
fn private_mode_allows_only_whitelist() {
    let mut a = AccessControl::new();
    assert!(a.allow(7));
    assert!(!a.allow(7));
    a.set_mode(AccessMode::Private);
    assert!(a.is_allowed(7));
    assert!(!a.is_allowed(8));
    assert!(a.is_manager(7));
    assert!(a.deny(7));
    assert!(!a.deny(7));
    assert!(!a.is_allowed(7));
    assert!(!a.is_manager(7));
}

#[test]
fn users_are_sorted() {
    let mut a = AccessControl::new();
    for u in [5, -3, 9, 5, 0] {
        a.allow(u);
    }
    assert_eq!(a.users(), vec![-3, 0, 5, 9]);
    let p = a.persisted();
    assert_eq!(p.mode, AccessMode::Public);
    assert_eq!(p.users, vec![-3, 0, 5, 9]);
}

#[test]
fn restore_with_seed() {
    let persisted = PersistedAccess { mode: AccessMode::Private, users: vec![987654321] };
    let (a, seeded) = AccessControl::restore(Some(persisted), Some(" 123456789, x ,, 987654321,+4,-5 "));
    assert!(seeded);
    assert_eq!(a.mode(), AccessMode::Private);
    assert_eq!(a.users(), vec![-5, 4, 123456789, 987654321]);

    let persisted = PersistedAccess { mode: AccessMode::Public, users: vec![1, 2] };
    let (a, seeded) = AccessControl::restore(Some(persisted), Some("2,1"));
    assert!(!seeded);
    assert_eq!(a.users(), vec![1, 2]);

    let (a, seeded) = AccessControl::restore(None, None);
    assert!(!seeded);
    assert_eq!(a.mode(), AccessMode::Public);
    assert!(a.users().is_empty());

    let (_, seeded) = AccessControl::restore(None, Some("99999999999999999999, 1 2"));
    assert!(!seeded);
}

#[test]
fn persisted_state_survives_restart() {
    let mut a = AccessControl::new();
    a.allow(42);
    a.allow(-1);
    a.set_mode(AccessMode::Private);
    let (b, seeded) = AccessControl::restore(Some(a.persisted()), None);
    assert!(!seeded);
    assert_eq!(b.mode(), a.mode());
    assert_eq!(b.users(), a.users());
}

#[test]
fn access_mode_parsing() {
    assert_eq!(AccessMode::parse(" PRIVATE ").unwrap(), AccessMode::Private);
    assert_eq!("public".parse::<AccessMode>().unwrap(), AccessMode::Public);
    assert_eq!(AccessMode::parse("open").unwrap_err(), "debe ser public o private");
    assert_eq!(AccessMode::default(), AccessMode::Public);
    assert_eq!(AccessMode::Private.name(), "private");
}
