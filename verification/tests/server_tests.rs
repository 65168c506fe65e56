//! The accept loop's decisions from the outside: the first connection
//! is always served, the drain signal comes exactly once, and the
//! drain connection never becomes a session.
use rust_15_async_chat::server::ServerCore;

#[test]
fn the_first_connection_is_always_served() {
    let mut core = ServerCore::new();
    assert!(core.on_accept());
}

#[test]
fn last_departure_signals_the_drain_exactly_once() {
    let mut core = ServerCore::new();
    assert!(core.on_accept());
    assert!(core.registry.try_admit("alice".into(), 1));
    assert!(core.on_accept());
    assert!(core.registry.try_admit("bob".into(), 2));
    // two clients online: the first departure must not signal
    assert!(!core.depart("alice"));
    // the last departure signals, and only once
    assert!(core.depart("bob"));
    assert!(!core.depart("bob"));
    assert!(!core.depart("alice"));
    // the drain connection wakes the accept loop and is not served
    assert!(!core.on_accept());
}

#[test]
fn departure_of_an_unknown_name_never_signals() {
    let mut core = ServerCore::new();
    assert!(core.registry.try_admit("alice".into(), 1));
    assert!(!core.depart("bob"));
    assert_eq!(core.registry.count(), 1);
}

#[test]
fn a_client_that_never_authenticated_does_not_stop_the_loop() {
    // a connection is accepted but its handshake fails; with nobody
    // ever admitted the server keeps only its first-connection grace
    let mut core = ServerCore::new();
    assert!(core.on_accept());
    // nobody was admitted, so the next connection ends the loop
    assert!(!core.on_accept());
}
