//! The client registry: the single source of truth for who is
//! online. It maps each login name to its session identifier, admits
//! a name at most once at a time, and is modelled as a finite map
//! from character sequences to session identifiers.
use vstd::prelude::*;

use crate::kv::{distinct_keys, find_key, kv_map, lemma_kv_map, lemma_kv_map_remove};

verus! {

/// The registry of connected clients: one entry per login name.
pub struct ClientRegistry {
    entries: Vec<(String, u64)>,
}

impl View for ClientRegistry {
    type V = Map<Seq<char>, u64>;

    /// The registry as a map from login name to session identifier.
    closed spec fn view(&self) -> Map<Seq<char>, u64> {
        kv_map(self.entries@)
    }
}

impl ClientRegistry {
    /// The registry never holds a login name twice.
    pub closed spec fn wf(&self) -> bool {
        distinct_keys(self.entries@)
    }

    /// A fresh registry with nobody online.
    pub fn new() -> (r: ClientRegistry)
        ensures
            r.wf(),
            r@ == Map::<Seq<char>, u64>::empty(),
    {
        ClientRegistry { entries: Vec::new() }
    }

    /// Whether a login name is currently admitted.
    pub fn contains(&self, login: &str) -> (r: bool)
        requires
            self.wf(),
        ensures
            r == self@.contains_key(login@),
    {
        proof {
            lemma_kv_map(self.entries@);
        }
        match find_key(&self.entries, login) {
            Some(_) => true,
            None => false,
        }
    }

    /// Admits a login name atomically: the entry is created exactly
    /// when the name was absent, and an occupied name is left as it
    /// was and refused.
    pub fn try_admit(&mut self, login: String, session: u64) -> (admitted: bool)
        requires
            old(self).wf(),
        ensures
            final(self).wf(),
            admitted == !old(self)@.contains_key(login@),
            admitted ==> final(self)@ == old(self)@.insert(login@, session),
            !admitted ==> final(self)@ == old(self)@,
    {
        proof {
            lemma_kv_map(self.entries@);
        }
        match find_key(&self.entries, login.as_str()) {
            Some(_) => false,
            None => {
                self.entries.push((login, session));
                proof {
                    assert(self.entries@.drop_last() =~= old(self).entries@);
                }
                true
            },
        }
    }

    /// Removes a login name; removing an absent name changes nothing,
    /// so a second removal is harmless.
    pub fn remove(&mut self, login: &str)
        requires
            old(self).wf(),
        ensures
            final(self).wf(),
            final(self)@ == old(self)@.remove(login@),
    {
        proof {
            lemma_kv_map(self.entries@);
        }
        match find_key(&self.entries, login) {
            Some(i) => {
                self.entries.remove(i);
                proof {
                    lemma_kv_map_remove(old(self).entries@, i as int);
                }
            },
            None => {
                proof {
                    assert(!old(self)@.contains_key(login@));
                    assert(old(self)@.remove(login@) =~= old(self)@);
                }
            },
        }
    }

    /// The registry always holds finitely many clients.
    pub proof fn lemma_finite(&self)
        requires
            self.wf(),
        ensures
            self@.dom().finite(),
    {
        lemma_kv_map(self.entries@);
    }

    /// How many clients are online.
    pub fn count(&self) -> (n: usize)
        requires
            self.wf(),
        ensures
            n == self@.dom().len(),
    {
        proof {
            lemma_kv_map(self.entries@);
        }
        self.entries.len()
    }
}

} // verus!
