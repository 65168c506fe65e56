//! The client registry from the outside: duplicate sessions are
//! refused, departures free the name, removal is idempotent.
use rust_15_async_chat::registry::ClientRegistry;

#[test]
fn duplicate_login_is_refused_until_removed() {
    let mut reg = ClientRegistry::new();
    assert!(reg.try_admit("alice".into(), 1));
    assert!(!reg.try_admit("alice".into(), 2));
    reg.remove("alice");
    assert!(reg.try_admit("alice".into(), 3));
}

#[test]
fn count_follows_admissions_and_departures() {
    let mut reg = ClientRegistry::new();
    assert_eq!(reg.count(), 0);
    assert!(reg.try_admit("alice".into(), 1));
    assert!(reg.try_admit("bob".into(), 2));
    assert_eq!(reg.count(), 2);
    assert!(!reg.try_admit("bob".into(), 3));
    assert_eq!(reg.count(), 2);
    reg.remove("alice");
    assert_eq!(reg.count(), 1);
    reg.remove("bob");
    assert_eq!(reg.count(), 0);
}

#[test]
fn removing_an_absent_name_changes_nothing() {
    let mut reg = ClientRegistry::new();
    assert!(reg.try_admit("alice".into(), 1));
    reg.remove("bob");
    reg.remove("alice");
    reg.remove("alice");
    assert_eq!(reg.count(), 0);
}

#[test]
fn contains_tracks_the_entries() {
    let mut reg = ClientRegistry::new();
    assert!(!reg.contains("alice"));
    assert!(reg.try_admit("alice".into(), 1));
    assert!(reg.contains("alice"));
    assert!(!reg.contains("bob"));
    reg.remove("alice");
    assert!(!reg.contains("alice"));
}
