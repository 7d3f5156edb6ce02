use session_refresh::registry::Registry;

#[test]
fn slots_are_shared_per_key_and_drain() {
    let mut reg = Registry::new();
    let k1 = "stale-credential-one".to_string();
    let k2 = "stale-credential-two".to_string();
    reg.declare_lock(&k1);
    reg.declare_lock(&k1);
    reg.declare_lock(&k2);
    assert_eq!(reg.entry_count(), 2);

    // a freshly created slot holds no pair yet
    let (filled, a, r, subject) = reg.cached_pair(&k1).unwrap();
    assert!(!filled);
    assert_eq!(a, "");
    assert_eq!(r, "");
    assert_eq!(subject, 0);
    assert!(reg.cached_pair(&"never-acquired".to_string()).is_none());

    reg.store_pair(&k1, "new-access".to_string(), "new-refresh".to_string(), 9);
    let (filled, a, r, subject) = reg.cached_pair(&k1).unwrap();
    assert!(filled);
    assert_eq!(a, "new-access");
    assert_eq!(r, "new-refresh");
    assert_eq!(subject, 9);

    // the remaining holder keeps the entry alive; the last release evicts it
    reg.remove_lock_if_not_used(&k1);
    assert_eq!(reg.entry_count(), 2);
    reg.remove_lock_if_not_used(&k1);
    assert_eq!(reg.entry_count(), 1);
    reg.remove_lock_if_not_used(&k2);
    assert_eq!(reg.entry_count(), 0);

    // releasing an absent key changes nothing
    reg.remove_lock_if_not_used(&k1);
    assert_eq!(reg.entry_count(), 0);
}
