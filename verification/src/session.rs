//! The per-connection session engine. A session is authenticated by
//! the handshake step, then run by two cooperating loops: a reader
//! that turns received frames into publish/persist/depart decisions,
//! and a relay that decides what each broadcast delivery means for
//! this one peer. The loops live with the transport; every decision
//! is made here and proved.
use vstd::prelude::*;
use vstd::string::StringExecFns;

use crate::async_chat_msg::{is_quit_val, quit_sentinel, AsyncChatMsg, MsgVal};
use crate::creds::{gate_outcome, CredentialTable};
use crate::registry::ClientRegistry;
use crate::strings::str_eq;

verus! {

/// The name the server signs its own messages with.
pub open spec fn server_name() -> Seq<char> {
    "Server"@
}

/// The reply body for a wrong password.
pub open spec fn wrong_password_body(login: Seq<char>) -> Seq<char> {
    "ERROR: Incorrect password for login "@ + login
}

/// The reply body for a login name that is already online.
pub open spec fn already_logged_in_body(login: Seq<char>) -> Seq<char> {
    "ERROR: User "@ + login
        + " is already logged in, please choose another or disconnect from existing session"@
}

/// The reply body welcoming an admitted client.
pub open spec fn welcome_body(login: Seq<char>) -> Seq<char> {
    login + ", welcome on the AsyncChatServer!"@
}

/// The server-authored notice that a client has left.
pub open spec fn disconnect_body(from: Seq<char>) -> Seq<char> {
    "User "@ + from + " has disconnected"@
}

/// A text message signed by the server.
pub open spec fn server_text(body: Seq<char>) -> MsgVal {
    MsgVal::Text { from: server_name(), body }
}

/// What one authentication attempt decided.
pub enum AuthOutcome {
    /// The client broke protocol: the frame was no login. Close the session.
    Close,
    /// The login was refused; send the reply and let the client retry.
    Retry(AsyncChatMsg),
    /// The client is admitted under this name; send the welcome reply.
    Admitted(String, AsyncChatMsg),
}

/// One step of the authentication handshake, exactly as the session
/// runs it: a frame that is not a login fails the session; a login
/// runs the credential gate, registering an unknown name; an accepted
/// name is admitted into the registry unless it is already online.
pub fn authenticate_step(
    msg: &AsyncChatMsg,
    creds: &mut CredentialTable,
    registry: &mut ClientRegistry,
    session_id: u64,
) -> (r: AuthOutcome)
    requires
        old(creds).wf(),
        old(registry).wf(),
    ensures
        final(creds).wf(),
        final(registry).wf(),
        !(msg@ matches MsgVal::Login { .. }) ==> r is Close && final(creds)@ == old(creds)@
            && final(registry)@ == old(registry)@,
        msg@ matches MsgVal::Login { login, password } ==> {
            let (table, accepted) = gate_outcome(old(creds)@, login, password);
            &&& final(creds)@ == table
            &&& (!accepted ==> (r matches AuthOutcome::Retry(reply) && reply@ == server_text(
                wrong_password_body(login),
            ) && final(registry)@ == old(registry)@))
            &&& (accepted && old(registry)@.contains_key(login) ==> (r
                matches AuthOutcome::Retry(reply) && reply@ == server_text(
                already_logged_in_body(login),
            ) && final(registry)@ == old(registry)@))
            &&& (accepted && !old(registry)@.contains_key(login) ==> (r
                matches AuthOutcome::Admitted(name, reply) && name@ == login && reply@
                == server_text(welcome_body(login)) && final(registry)@ == old(
                registry,
            )@.insert(login, session_id)))
        },
{
    match msg {
        AsyncChatMsg::Login(login, password) => {
            let accepted = creds.validate_or_register(login.as_str(), password.as_str());
            if !accepted {
                let body = String::from_str("ERROR: Incorrect password for login ").concat(
                    login.as_str(),
                );
                AuthOutcome::Retry(AsyncChatMsg::create_text(String::from_str("Server"), body))
            } else if !registry.try_admit(login.clone(), session_id) {
                let body = String::from_str("ERROR: User ").concat(login.as_str()).concat(
                    " is already logged in, please choose another or disconnect from existing session",
                );
                AuthOutcome::Retry(AsyncChatMsg::create_text(String::from_str("Server"), body))
            } else {
                let body = login.clone().concat(", welcome on the AsyncChatServer!");
                AuthOutcome::Admitted(
                    login.clone(),
                    AsyncChatMsg::create_text(String::from_str("Server"), body),
                )
            }
        },
        _ => AuthOutcome::Close,
    }
}

/// What the reader loop saw: one decoded frame, or a failed read
/// (disconnect or malformed frame alike).
pub enum ReaderEvent {
    Frame(AsyncChatMsg),
    ReadFailure,
}

/// The mathematical value of a reader event.
pub enum ReaderEventVal {
    Frame(MsgVal),
    ReadFailure,
}

impl View for ReaderEvent {
    type V = ReaderEventVal;

    open spec fn view(&self) -> ReaderEventVal {
        match self {
            ReaderEvent::Frame(m) => ReaderEventVal::Frame(m@),
            ReaderEvent::ReadFailure => ReaderEventVal::ReadFailure,
        }
    }
}

/// What the reader loop does with one event.
#[derive(Clone, Copy, PartialEq, Eq, Structural, Debug)]
pub struct ReaderStep {
    /// Hand the message to the broadcast fabric.
    pub publish: bool,
    /// Hand the message to the persistence collaborator.
    pub persist: bool,
    /// Remove this session's login from the registry.
    pub depart: bool,
    /// End the reader loop.
    pub stop: bool,
}

/// The reader decision: chat messages are published and persisted; the
/// quit command is the last one, and also ends the session; a login
/// frame received mid-session never reaches the broadcast path; a
/// failed read ends the session silently.
pub open spec fn spec_reader_step(ev: ReaderEventVal) -> ReaderStep {
    match ev {
        ReaderEventVal::Frame(m) => match m {
            MsgVal::Login { .. } => ReaderStep {
                publish: false,
                persist: false,
                depart: false,
                stop: false,
            },
            _ => if is_quit_val(m) {
                ReaderStep { publish: true, persist: true, depart: true, stop: true }
            } else {
                ReaderStep { publish: true, persist: true, depart: false, stop: false }
            },
        },
        ReaderEventVal::ReadFailure => ReaderStep {
            publish: false,
            persist: false,
            depart: true,
            stop: true,
        },
    }
}

/// One step of the reader loop, following `spec_reader_step` exactly.
pub fn reader_step(ev: &ReaderEvent) -> (r: ReaderStep)
    ensures
        r == spec_reader_step(ev@),
{
    match ev {
        ReaderEvent::Frame(m) => match m {
            AsyncChatMsg::Login(_, _) => ReaderStep {
                publish: false,
                persist: false,
                depart: false,
                stop: false,
            },
            _ => {
                if m.is_quit() {
                    ReaderStep { publish: true, persist: true, depart: true, stop: true }
                } else {
                    ReaderStep { publish: true, persist: true, depart: false, stop: false }
                }
            },
        },
        ReaderEvent::ReadFailure => ReaderStep {
            publish: false,
            persist: false,
            depart: true,
            stop: true,
        },
    }
}

/// What one broadcast delivery means for one subscriber.
pub struct RelayStep {
    /// The frame to forward to this subscriber's peer, if any.
    pub deliver: Option<AsyncChatMsg>,
    /// End this subscriber's relay loop.
    pub stop: bool,
}

/// What a relay forwards to its peer for one delivery: a quit text
/// becomes the server-authored disconnect notice for every
/// subscriber; any other chat message is forwarded exactly when this
/// subscriber is not its origin; a login is never forwarded.
pub open spec fn spec_relay_deliver(m: MsgVal, origin: u64, me: u64) -> Option<MsgVal> {
    match m {
        MsgVal::Text { from, body } => if body == quit_sentinel() {
            Some(server_text(disconnect_body(from)))
        } else if origin != me {
            Some(m)
        } else {
            None
        },
        MsgVal::Login { .. } => None,
        _ => if origin != me {
            Some(m)
        } else {
            None
        },
    }
}

/// When a relay loop ends: on its own session's quit, or on any
/// server-authored text (the shutdown ping among them).
pub open spec fn spec_relay_stop(m: MsgVal, origin: u64, me: u64) -> bool {
    m matches MsgVal::Text { from, body } && ((body == quit_sentinel() && origin == me) || from
        == server_name())
}

/// One step of the relay loop, following `spec_relay_deliver` and
/// `spec_relay_stop` exactly.
pub fn relay_step(msg: &AsyncChatMsg, origin: u64, me: u64) -> (r: RelayStep)
    ensures
        match r.deliver {
            Some(d) => spec_relay_deliver(msg@, origin, me) == Some(d@),
            None => spec_relay_deliver(msg@, origin, me) is None,
        },
        r.stop == spec_relay_stop(msg@, origin, me),
{
    match msg {
        AsyncChatMsg::Text(from, body) => {
            let quit = str_eq(body.as_str(), ".quit");
            let from_server = str_eq(from.as_str(), "Server");
            let deliver = if quit {
                let notice = String::from_str("User ").concat(from.as_str()).concat(
                    " has disconnected",
                );
                Some(AsyncChatMsg::create_text(String::from_str("Server"), notice))
            } else if origin != me {
                Some(msg.clone())
            } else {
                None
            };
            RelayStep { deliver, stop: (quit && origin == me) || from_server }
        },
        AsyncChatMsg::Login(_, _) => RelayStep { deliver: None, stop: false },
        _ => {
            let deliver = if origin != me {
                Some(msg.clone())
            } else {
                None
            };
            RelayStep { deliver, stop: false }
        },
    }
}

/// The broadcast fan-out law: an ordinary chat message (no quit
/// command, not server-authored, never a login) published from one
/// session is forwarded unchanged by every other session's relay, and
/// by the origin's own relay not at all. The fabric hands each
/// publication to each subscriber once, so each other peer receives
/// the message exactly once.
pub proof fn lemma_broadcast_fanout(m: MsgVal, origin: u64, me: u64)
    requires
        !(m matches MsgVal::Login { .. }),
        !is_quit_val(m),
        m matches MsgVal::Text { from, body } ==> from != server_name(),
    ensures
        me != origin ==> spec_relay_deliver(m, origin, me) == Some(m),
        me == origin ==> spec_relay_deliver(m, origin, me) is None,
        !spec_relay_stop(m, origin, me),
{
}

/// The quit sequence law: the quit command makes the reader publish
/// it, persist it, leave the registry and stop; every subscriber's
/// relay then turns that one delivery into exactly one server-authored
/// disconnect notice for its peer, and only the quitting session's own
/// relay stops on it.
pub proof fn lemma_quit_sequence(from: Seq<char>, origin: u64, me: u64)
    requires
        from != server_name(),
    ensures
        spec_reader_step(ReaderEventVal::Frame(MsgVal::Text { from, body: quit_sentinel() }))
            == (ReaderStep { publish: true, persist: true, depart: true, stop: true }),
        spec_relay_deliver(MsgVal::Text { from, body: quit_sentinel() }, origin, me) == Some(
            server_text(disconnect_body(from)),
        ),
        spec_relay_stop(MsgVal::Text { from, body: quit_sentinel() }, origin, me) == (origin == me),
{
    assert(is_quit_val(MsgVal::Text { from, body: quit_sentinel() }));
}

/// The login confinement law: a login frame travels the handshake
/// only. Received mid-session it is neither published, nor persisted,
/// nor forwarded by any relay to any peer.
pub proof fn lemma_login_confined(login: Seq<char>, password: Seq<char>, origin: u64, me: u64)
    ensures
        spec_reader_step(ReaderEventVal::Frame(MsgVal::Login { login, password })) == (ReaderStep {
            publish: false,
            persist: false,
            depart: false,
            stop: false,
        }),
        spec_relay_deliver(MsgVal::Login { login, password }, origin, me) is None,
{
}

} // verus!
