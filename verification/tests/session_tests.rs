//! The session engine from the outside: the handshake's replies, the
//! reader's decisions, and what each broadcast delivery means for one
//! subscriber.
use rust_15_async_chat::async_chat_msg::AsyncChatMsg;
use rust_15_async_chat::creds::CredentialTable;
use rust_15_async_chat::registry::ClientRegistry;
use rust_15_async_chat::session::{
    authenticate_step, reader_step, relay_step, AuthOutcome, ReaderEvent,
};

fn text(from: &str, body: &str) -> AsyncChatMsg {
    AsyncChatMsg::Text(from.into(), body.into())
}

#[test]
fn non_login_frame_fails_the_handshake() {
    let mut creds = CredentialTable::new();
    let mut reg = ClientRegistry::new();
    let r = authenticate_step(&text("martin", "hi"), &mut creds, &mut reg, 1);
    assert!(matches!(r, AuthOutcome::Close));
    assert_eq!(reg.count(), 0);
}

#[test]
fn fresh_login_is_admitted_with_a_welcome() {
    let mut creds = CredentialTable::new();
    let mut reg = ClientRegistry::new();
    let msg = AsyncChatMsg::Login("martin".into(), "password".into());
    match authenticate_step(&msg, &mut creds, &mut reg, 7) {
        AuthOutcome::Admitted(name, reply) => {
            assert_eq!(name, "martin");
            assert_eq!(
                reply.display_string(),
                "Server: martin, welcome on the AsyncChatServer!"
            );
        }
        _ => panic!("expected admission"),
    }
    assert!(reg.contains("martin"));
    assert!(creds.contains("martin"));
}

#[test]
fn wrong_password_keeps_the_client_retrying() {
    let mut creds = CredentialTable::new();
    assert!(creds.validate_or_register("martin", "password"));
    let mut reg = ClientRegistry::new();
    let msg = AsyncChatMsg::Login("martin".into(), "wrong".into());
    match authenticate_step(&msg, &mut creds, &mut reg, 7) {
        AuthOutcome::Retry(reply) => {
            assert_eq!(reply.get_text(), "ERROR: Incorrect password for login martin");
        }
        _ => panic!("expected retry"),
    }
    assert!(!reg.contains("martin"));
}

#[test]
fn second_session_for_a_name_is_refused() {
    let mut creds = CredentialTable::new();
    let mut reg = ClientRegistry::new();
    let first = AsyncChatMsg::Login("martin".into(), "password".into());
    assert!(matches!(
        authenticate_step(&first, &mut creds, &mut reg, 1),
        AuthOutcome::Admitted(_, _)
    ));
    let second = AsyncChatMsg::Login("martin".into(), "password".into());
    match authenticate_step(&second, &mut creds, &mut reg, 2) {
        AuthOutcome::Retry(reply) => {
            assert_eq!(
                reply.get_text(),
                "ERROR: User martin is already logged in, please choose another or disconnect from existing session"
            );
        }
        _ => panic!("expected retry"),
    }
    assert_eq!(reg.count(), 1);
}

#[test]
fn reader_publishes_and_persists_chat_messages() {
    let step = reader_step(&ReaderEvent::Frame(text("martin", "hello")));
    assert!(step.publish && step.persist && !step.depart && !step.stop);
    let file = AsyncChatMsg::File("martin".into(), "a.txt".into(), vec![1, 2]);
    let step = reader_step(&ReaderEvent::Frame(file));
    assert!(step.publish && step.persist && !step.depart && !step.stop);
}

#[test]
fn reader_treats_quit_as_the_last_message() {
    let step = reader_step(&ReaderEvent::Frame(text("martin", ".quit")));
    assert!(step.publish && step.persist && step.depart && step.stop);
}

#[test]
fn reader_ends_silently_on_a_failed_read() {
    let step = reader_step(&ReaderEvent::ReadFailure);
    assert!(!step.publish && !step.persist && step.depart && step.stop);
}

#[test]
fn reader_never_publishes_a_login() {
    let login = AsyncChatMsg::Login("martin".into(), "password".into());
    let step = reader_step(&ReaderEvent::Frame(login));
    assert!(!step.publish && !step.persist && !step.depart && !step.stop);
}

#[test]
fn broadcast_reaches_everyone_but_the_origin() {
    // three sessions; the first one publishes; the other two receive
    // it exactly once, the origin not at all
    let msg = text("alice", "hi");
    let to_b = relay_step(&msg, 1, 2);
    match to_b.deliver {
        Some(AsyncChatMsg::Text(from, body)) => {
            assert_eq!(from, "alice");
            assert_eq!(body, "hi");
        }
        _ => panic!("expected the message"),
    }
    assert!(!to_b.stop);
    let to_c = relay_step(&msg, 1, 3);
    assert!(to_c.deliver.is_some());
    assert!(!to_c.stop);
    let to_a = relay_step(&msg, 1, 1);
    assert!(to_a.deliver.is_none());
    assert!(!to_a.stop);
}

#[test]
fn quit_becomes_one_disconnect_notice_for_every_peer() {
    let quit = text("alice", ".quit");
    for me in [1u64, 2, 3] {
        let step = relay_step(&quit, 1, me);
        match step.deliver {
            Some(AsyncChatMsg::Text(from, body)) => {
                assert_eq!(from, "Server");
                assert_eq!(body, "User alice has disconnected");
            }
            _ => panic!("expected the notice"),
        }
        assert_eq!(step.stop, me == 1);
    }
}

#[test]
fn server_authored_text_stops_every_relay() {
    let ping = text("Server", "drain");
    let step = relay_step(&ping, 9, 2);
    assert!(step.stop);
    let step = relay_step(&ping, 2, 2);
    assert!(step.stop);
}

#[test]
fn relay_never_forwards_a_login() {
    let login = AsyncChatMsg::Login("alice".into(), "pw".into());
    let step = relay_step(&login, 1, 2);
    assert!(step.deliver.is_none());
    assert!(!step.stop);
}
