//! The server core around the accept loop: it owns the client
//! registry and the one flag that tells "nobody has ever connected"
//! from "everybody has left", decides for each accepted connection
//! whether to serve it, and decides on each departure whether the
//! drain handshake — the loopback connection that wakes the accept
//! loop — must be signalled.
use vstd::prelude::*;

use crate::registry::ClientRegistry;

verus! {

/// The server's accept-loop state: the registry of clients online and
/// whether the server is still waiting for its first connection.
pub struct ServerCore {
    /// The authoritative record of who is online.
    pub registry: ClientRegistry,
    /// Still waiting for the first connection ever.
    pub waiting: bool,
}

/// Whether an accepted connection is served: always while the server
/// still waits for its first client, afterwards only while someone is
/// online — a connection arriving once everybody has left is the
/// drain signal and ends the accept loop.
pub open spec fn spec_serve(waiting: bool, online: nat) -> bool {
    waiting || online > 0
}

/// What one departure does to the registry in state `m`: the new
/// state, and whether the drain must be signalled — exactly when this
/// departure empties a registry that held somebody.
pub open spec fn depart_outcome(m: Map<Seq<char>, u64>, login: Seq<char>) -> (
    Map<Seq<char>, u64>,
    bool,
) {
    (m.remove(login), m.contains_key(login) && m.dom().len() == 1)
}

impl ServerCore {
    /// The registry never holds a login name twice.
    pub open spec fn wf(&self) -> bool {
        self.registry.wf()
    }

    /// Whether no connection has ever been accepted.
    pub open spec fn spec_waiting(&self) -> bool {
        self.waiting
    }

    /// A fresh server: nobody online, first connection still awaited.
    pub fn new() -> (r: ServerCore)
        ensures
            r.wf(),
            r.registry@ == Map::<Seq<char>, u64>::empty(),
            r.spec_waiting(),
    {
        ServerCore { registry: ClientRegistry::new(), waiting: true }
    }

    /// The accept-loop decision for one accepted connection, made
    /// before any handshake: whether to serve it, per `spec_serve`.
    /// The drain connection is thereby never served and never becomes
    /// a session.
    pub fn on_accept(&mut self) -> (serve: bool)
        requires
            old(self).wf(),
        ensures
            final(self).wf(),
            serve == spec_serve(old(self).spec_waiting(), old(self).registry@.dom().len()),
            final(self).registry@ == old(self).registry@,
            !final(self).spec_waiting(),
    {
        let online = self.registry.count();
        let serve = self.waiting || online > 0;
        self.waiting = false;
        serve
    }

    /// One departure: the login leaves the registry (leaving again is
    /// harmless), and the drain is signalled exactly when the last
    /// client just left.
    pub fn depart(&mut self, login: &str) -> (signal: bool)
        requires
            old(self).wf(),
        ensures
            final(self).wf(),
            (final(self).registry@, signal) == depart_outcome(old(self).registry@, login@),
            final(self).spec_waiting() == old(self).spec_waiting(),
            signal ==> final(self).registry@.dom().len() == 0,
    {
        let was_present = self.registry.contains(login);
        let ghost before = self.registry@;
        proof {
            self.registry.lemma_finite();
        }
        self.registry.remove(login);
        let remaining = self.registry.count();
        proof {
            if was_present {
                vstd::set::axiom_set_remove_len(before.dom(), login@);
                assert(before.remove(login@).dom() =~= before.dom().remove(login@));
            } else {
                assert(before.remove(login@) =~= before);
            }
        }
        was_present && remaining == 0
    }
}

/// The drain law: a departure that signals the drain leaves the
/// registry empty, and while it stays empty no further departure
/// signals again and no accepted connection is served — the accept
/// loop ends instead of spawning a session for the drain connection.
pub proof fn lemma_drain_signal_once(m: Map<Seq<char>, u64>, l1: Seq<char>, l2: Seq<char>)
    requires
        m.dom().finite(),
        depart_outcome(m, l1).1,
    ensures
        depart_outcome(m, l1).0.dom().len() == 0,
        !depart_outcome(depart_outcome(m, l1).0, l2).1,
        !spec_serve(false, depart_outcome(m, l1).0.dom().len()),
{
    vstd::set::axiom_set_remove_len(m.dom(), l1);
    assert(m.remove(l1).dom() =~= m.dom().remove(l1));
}

} // verus!
