//! The credential gate from the outside: first contact registers,
//! afterwards only the stored password opens the door.
use rust_15_async_chat::creds::CredentialTable;

#[test]
fn unknown_login_is_registered_and_accepted() {
    let mut table = CredentialTable::new();
    assert!(!table.contains("martin"));
    assert!(table.validate_or_register("martin", "password"));
    assert!(table.contains("martin"));
}

#[test]
fn known_login_with_correct_password_is_accepted() {
    let mut table = CredentialTable::new();
    assert!(table.validate_or_register("martin", "password"));
    assert!(table.validate_or_register("martin", "password"));
}

#[test]
fn known_login_with_wrong_password_is_refused() {
    let mut table = CredentialTable::new();
    assert!(table.validate_or_register("martin", "password"));
    assert!(!table.validate_or_register("martin", "password2"));
    // the stored password is not overwritten by the failed attempt
    assert!(table.validate_or_register("martin", "password"));
}

#[test]
fn loaded_entries_act_like_registered_ones() {
    let mut table = CredentialTable::new();
    assert!(table.load_entry("eva".into(), "secret".into()));
    assert!(!table.load_entry("eva".into(), "other".into()));
    assert!(table.validate_or_register("eva", "secret"));
    assert!(!table.validate_or_register("eva", "other"));
}
